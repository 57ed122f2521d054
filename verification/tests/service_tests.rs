use stackctl::service::PortConfig;
use stackctl::service::Service;
use stackctl::service::VolumeConfig;

#[test]
fn test_simple_service_creation() {
    let service = Service::new("web".to_string())
        .image("nginx:latest".to_string())
        .ports(vec!["80:80".to_string()])
        .env("ENV".to_string(), "production".to_string());

    assert_eq!(service.name(), "web");
    assert_eq!(service.get_image(), Some(&"nginx:latest".to_string()));
    assert_eq!(service.get_ports(), &vec!["80:80".to_string()]);
    assert_eq!(
        service.get_environment().get("ENV"),
        Some(&"production".to_string())
    );
}

#[test]
fn test_service_cloning() {
    let base_service = Service::web_service("web".to_string())
        .image("nginx:latest".to_string())
        .ports(vec!["80:80".to_string()]);

    let dev_service = base_service
        .clone_with_name("web-dev".to_string())
        .env("ENV".to_string(), "development".to_string())
        .ports(vec!["8080:80".to_string()]);

    assert_eq!(base_service.name(), "web");
    assert_eq!(dev_service.name(), "web-dev");

    // Both should have the same image.
    assert_eq!(base_service.get_image(), Some(&"nginx:latest".to_string()));
    assert_eq!(dev_service.get_image(), Some(&"nginx:latest".to_string()));
}

#[test]
fn test_convenience_constructors() {
    let web = Service::web_service("api".to_string());
    let db = Service::database_service("postgres".to_string());
    let cache = Service::redis_service("cache".to_string());

    assert_eq!(web.name(), "api");
    assert_eq!(db.name(), "postgres");
    assert_eq!(cache.name(), "cache");

    // The cache service should have its stock image and port.
    assert_eq!(cache.get_image(), Some(&"redis:7-alpine".to_string()));
    assert_eq!(cache.get_ports(), &vec!["6379:6379".to_string()]);
}

#[test]
fn test_config_map() {
    let service = Service::new("test".to_string())
        .image("test:latest".to_string())
        .env("KEY".to_string(), "value".to_string())
        .ports(vec!["8080:80".to_string()]);

    let config = service.to_config_map();
    assert_eq!(config.get("name"), Some(&"test".to_string()));
    assert_eq!(config.get("image"), Some(&"test:latest".to_string()));
    assert_eq!(config.get("ports"), Some(&"8080:80".to_string()));
    assert!(config.get("environment").unwrap().contains("KEY=value"));
}

#[test]
fn test_build_configuration() {
    let service = Service::new("app".to_string())
        .build_context(".".to_string())
        .build_arg("NODE_ENV".to_string(), "production".to_string())
        .build_target("production".to_string())
        .build_cache_from("node:18-alpine".to_string());

    let config = service.to_config_map();
    assert_eq!(config.get("build_context"), Some(&".".to_string()));
    assert_eq!(config.get("build_target"), Some(&"production".to_string()));
    assert!(config
        .get("build_args")
        .unwrap()
        .contains("NODE_ENV=production"));

    // Should not have an image when a build is set.
    assert!(service.get_image().is_none());
}

#[test]
fn test_resource_limits() {
    let service = Service::new("app".to_string())
        .memory("512m".to_string())
        .memory_reservation("256m".to_string())
        .cpus("0.5".to_string())
        .cpu_shares(512);

    let config = service.to_config_map();
    assert_eq!(config.get("memory"), Some(&"512m".to_string()));
    assert_eq!(config.get("memory_reservation"), Some(&"256m".to_string()));
    assert_eq!(config.get("cpus"), Some(&"0.5".to_string()));
    assert_eq!(config.get("cpu_shares"), Some(&"512".to_string()));
}

#[test]
fn test_advanced_ports() {
    let service = Service::new("app".to_string()).port_advanced(
        8080,
        Some(80),
        Some("tcp".to_string()),
        Some("ingress".to_string()),
    );

    let config = service.to_config_map();
    assert!(config.get("advanced_ports").unwrap().contains("80:8080:tcp"));
}

#[test]
fn test_environment_files_and_secrets() {
    let service = Service::new("app".to_string())
        .env_file(".env".to_string())
        .secret("db_password".to_string());

    let config = service.to_config_map();
    assert_eq!(config.get("env_files"), Some(&".env".to_string()));
    assert_eq!(config.get("secrets"), Some(&"db_password".to_string()));
}

#[test]
fn test_healthcheck() {
    let service = Service::new("app".to_string()).healthcheck(
        vec![
            "CMD".to_string(),
            "curl".to_string(),
            "-f".to_string(),
            "http://localhost:8080/health".to_string(),
        ],
        Some("30s".to_string()),
        Some("10s".to_string()),
        Some(3),
        Some("40s".to_string()),
    );

    let config = service.to_config_map();
    assert!(config
        .get("healthcheck_test")
        .unwrap()
        .contains("curl -f http://localhost:8080/health"));
}

#[test]
fn test_mutual_exclusivity_image_build() {
    // Setting an image after a build context clears the build.
    let service1 = Service::new("app".to_string())
        .image("nginx:latest".to_string())
        .build_context(".".to_string());

    assert!(service1.get_image().is_none());
    assert!(service1.get_build().is_some());

    // Setting a build context after an image clears the image.
    let service2 = Service::new("app".to_string())
        .build_context(".".to_string())
        .image("nginx:latest".to_string());

    assert!(service2.get_build().is_none());
    assert_eq!(service2.get_image(), Some(&"nginx:latest".to_string()));
}

#[test]
fn test_service_builder_basic() {
    let service = Service::new("web".to_string())
        .image("nginx:latest".to_string())
        .ports(vec!["80:80".to_string()])
        .env("ENV".to_string(), "production".to_string());

    assert_eq!(service.get_image(), Some(&"nginx:latest".to_string()));
    assert_eq!(service.get_ports(), &vec!["80:80".to_string()]);
    assert_eq!(
        service.get_environment().get("ENV"),
        Some(&"production".to_string())
    );
}

#[test]
fn test_service_builder_complex() {
    let mut env = stackctl::kv::StrMap::new();
    env.insert("DATABASE_URL".to_string(), "postgres://...".to_string());
    env.insert("REDIS_URL".to_string(), "redis://...".to_string());
    let service = Service::new("api".to_string())
        .image("myapp:latest".to_string())
        .ports(vec!["8080:8080".to_string()])
        .environment(&env)
        .volumes(vec![
            "./logs:/app/logs".to_string(),
            "data_volume:/app/data".to_string(),
        ])
        .depends_on(vec!["db".to_string(), "redis".to_string()])
        .healthcheck(
            vec![
                "CMD".to_string(),
                "curl".to_string(),
                "-f".to_string(),
                "http://localhost:8080/health".to_string(),
            ],
            Some("30s".to_string()),
            Some("10s".to_string()),
            Some(3),
            None,
        )
        .restart_policy("unless-stopped".to_string());

    assert_eq!(service.get_image(), Some(&"myapp:latest".to_string()));

    // Check the dependencies.
    let deps = service.get_depends_on();
    assert!(deps.contains(&"db".to_string()));
    assert!(deps.contains(&"redis".to_string()));

    // Check the restart policy.
    let config = service.to_config_map();
    assert_eq!(config.get("restart"), Some(&"unless-stopped".to_string()));

    // Check the health check.
    assert!(config.get("healthcheck_test").is_some());
}

#[test]
fn test_service_builder_build_configuration() {
    let service = Service::new("app".to_string())
        .build_context(".".to_string())
        .build_arg("NODE_ENV".to_string(), "production".to_string())
        .build_target("production".to_string())
        .build_cache_from("node:18-alpine".to_string());

    // Should not have an image when a build is set.
    assert!(service.get_image().is_none());

    // Should have the full build configuration.
    let build = service.get_build().unwrap();
    assert_eq!(build.context, ".".to_string());
    assert_eq!(build.target, Some("production".to_string()));
    assert_eq!(
        build.args.get("NODE_ENV"),
        Some(&"production".to_string())
    );
    assert_eq!(build.cache_from, vec!["node:18-alpine".to_string()]);
}

#[test]
fn env_last_write_wins() {
    let service = Service::new("app".to_string())
        .env("MODE".to_string(), "debug".to_string())
        .env("MODE".to_string(), "release".to_string());
    assert_eq!(
        service.get_environment().get("MODE"),
        Some(&"release".to_string())
    );
    assert_eq!(service.get_environment().len(), 1);
}

#[test]
fn port_mapping_parses_exact_numbers() {
    let pc = PortConfig::simple_mapping("8080:80").unwrap();
    assert_eq!(pc.published, Some(8080));
    assert_eq!(pc.target, 80);
    assert_eq!(pc.protocol, "tcp".to_string());
    assert!(pc.mode.is_none());

    assert!(PortConfig::simple_mapping("abc:80").is_none());
    assert!(PortConfig::simple_mapping("80").is_none());
    assert!(PortConfig::simple_mapping("99999:80").is_none());
    assert!(PortConfig::simple_mapping("007:80").map(|p| p.published) == Some(Some(7)));
}

#[test]
fn volume_mapping_classifies_sources() {
    let bind = VolumeConfig::simple_mapping("./data:/app/data").unwrap();
    assert_eq!(bind.volume_type, "bind".to_string());
    assert_eq!(bind.source, "./data".to_string());
    assert_eq!(bind.target, "/app/data".to_string());

    let named = VolumeConfig::simple_mapping("logs:/var/log").unwrap();
    assert_eq!(named.volume_type, "volume".to_string());

    let rooted = VolumeConfig::simple_mapping("/etc/conf:/conf").unwrap();
    assert_eq!(rooted.volume_type, "bind".to_string());

    assert!(VolumeConfig::simple_mapping("nocolon").is_none());
}
