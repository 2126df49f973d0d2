use npm_docker_sync::docker::spec::ContainerSpec;
use npm_docker_sync::intent::Intent;

#[test]
fn remove_intent_carries_container_id() {
    let i = Intent::Remove {
        container_id: "abc".into(),
    };
    match i {
        Intent::Remove { container_id } => assert_eq!(container_id, "abc"),
        _ => panic!("wrong variant"),
    }
}

#[test]
fn upsert_intent_carries_spec() {
    let spec = ContainerSpec::stub("abc", "app.example.com");
    let i = Intent::Upsert {
        container_id: "abc".into(),
        spec: spec.clone(),
    };
    match i {
        Intent::Upsert {
            container_id,
            spec: got,
        } => {
            assert_eq!(container_id, "abc");
            assert_eq!(got, spec);
        }
        _ => panic!("wrong variant"),
    }
}
