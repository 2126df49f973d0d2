use npm_docker_sync::npm::certificates::{certificate_request, LetsEncryptRequest, DNS_PROPAGATION_SECONDS};

#[test]
fn certificate_order_uses_cloudflare_dns_challenge() {
    let req = LetsEncryptRequest {
        domain: "app.example.com".into(),
        letsencrypt_email: "ops@example.com".into(),
        dns_provider_credentials: "dns_cloudflare_api_token = tk\n".into(),
    };
    let order = certificate_request(&req);
    assert_eq!(order.provider, "letsencrypt");
    assert_eq!(order.domain_names, vec!["app.example.com".to_string()]);
    assert_eq!(order.meta.letsencrypt_email, "ops@example.com");
    assert!(order.meta.letsencrypt_agree);
    assert!(order.meta.dns_challenge);
    assert_eq!(order.meta.dns_provider, "cloudflare");
    assert_eq!(order.meta.dns_provider_credentials, "dns_cloudflare_api_token = tk\n");
    assert_eq!(order.meta.propagation_seconds, 30);
    assert_eq!(DNS_PROPAGATION_SECONDS, 30);
}
