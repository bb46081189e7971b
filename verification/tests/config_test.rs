use laskugeneraattori::AssetCache;
use laskugeneraattori::FontSlot;
use laskugeneraattori::MailgunConfig;

fn full_config() -> MailgunConfig {
    MailgunConfig {
        disable: false,
        url: Some("https://mail.example.com".to_string()),
        user: Some("api".to_string()),
        password: Some("api-key".to_string()),
        to: Some("treasurer@example.com".to_string()),
        from: Some("noreply@example.com".to_string()),
    }
}

#[test]
fn disabled_mailgun_is_rejected() {
    let mut config = full_config();
    config.disable = true;
    assert_eq!(config.validate().err(), Some("mailgun is disabled".to_string()));
}

#[test]
fn missing_url_is_rejected_first() {
    let mut config = full_config();
    config.url = None;
    config.user = None;
    assert_eq!(
        config.validate().err(),
        Some("mailgun URL is not configured".to_string())
    );
}

#[test]
fn missing_from_is_rejected() {
    let mut config = full_config();
    config.from = None;
    assert_eq!(
        config.validate().err(),
        Some("mailgun 'from' address is not configured".to_string())
    );
}

#[test]
fn complete_config_validates() {
    let settings = full_config().validate().expect("complete config");
    assert_eq!(settings.url, "https://mail.example.com");
    assert_eq!(settings.to, "treasurer@example.com");
}

#[test]
fn asset_cache_serves_template_and_fonts() {
    let data = typst_assets::fonts().next().expect("bundled fonts").to_vec();
    let slots = vec![FontSlot::new(data, 0), FontSlot::new(vec![1, 2, 3], 0)];
    let mut cache = AssetCache::new("template".to_string(), slots);
    assert_eq!(cache.template_source().as_str(), "template");
    assert_eq!(cache.font_count(), 2);
    assert!(cache.get_font(0).is_some());
    assert!(cache.get_font(0).is_some());
    assert!(cache.get_font(1).is_none());
    assert!(cache.get_font(2).is_none());
}
