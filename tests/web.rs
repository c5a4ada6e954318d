use fleet_inventory::models::WebService;
use fleet_inventory::web::{Health, WebServiceConfig};

fn config() -> WebServiceConfig {
    WebServiceConfig { name: "N8n".to_string(), url: "https://n8n.example.com".to_string() }
}

#[test]
fn status_204_is_healthy() {
    let w = WebService::from_probe(&config(), 1500, Ok(204));
    assert_eq!(w.name, "N8n");
    assert_eq!(w.url, "https://n8n.example.com");
    assert_eq!(w.http_status, Some(204));
    assert_eq!(w.response_time_micros, Some(1500));
    assert!(w.error.is_none());
    assert_eq!(w.health(), Health::Healthy);
}

#[test]
fn status_302_is_a_warning() {
    let w = WebService::from_probe(&config(), 20, Ok(302));
    assert_eq!(w.response_time_micros, Some(20));
    assert_eq!(w.health(), Health::Degraded);
}

#[test]
fn network_error_is_recorded() {
    let w = WebService::from_probe(&config(), 10_000_000, Err("connection refused".to_string()));
    assert_eq!(w.http_status, None);
    assert_eq!(w.error.as_deref(), Some("connection refused"));
    assert_eq!(w.response_time_micros, Some(10_000_000));
    assert_eq!(w.health(), Health::Critical);
}

#[test]
fn other_codes_and_missing_outcome() {
    assert_eq!(WebService::from_probe(&config(), 0, Ok(500)).health(), Health::Critical);
    assert_eq!(WebService::from_probe(&config(), 0, Ok(199)).health(), Health::Critical);
    assert_eq!(WebService::from_probe(&config(), 0, Ok(299)).health(), Health::Healthy);
    assert_eq!(WebService::from_probe(&config(), 0, Ok(399)).health(), Health::Degraded);
    assert_eq!(WebService::from_probe(&config(), 0, Ok(400)).health(), Health::Critical);
    let w = WebService {
        name: String::new(),
        url: String::new(),
        http_status: None,
        response_time_micros: None,
        error: None,
    };
    assert_eq!(w.health(), Health::Unknown);
}
