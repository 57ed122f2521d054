use stackctl::definition::ScalePolicy;
use stackctl::definition::ScaleStrategy;
use stackctl::definition::StackDefinition;
use stackctl::error::ErrorKind;
use stackctl::service::Service;

#[test]
fn test_stack_definition_creation() {
    let stack = StackDefinition::new("test-stack".to_string());
    assert_eq!(stack.name, "test-stack".to_string());
    assert!(stack.get_service_names().is_empty());
}

#[test]
fn test_deployment_order_simple() {
    let mut stack = StackDefinition::new("test".to_string());
    stack
        .set_service(
            "db".to_string(),
            Service::new("db".to_string()).image("postgres:13".to_string()),
        )
        .unwrap();
    stack
        .set_service(
            "web".to_string(),
            Service::new("web".to_string())
                .image("nginx".to_string())
                .depends_on_service("db".to_string()),
        )
        .unwrap();
    let order = stack.get_deployment_order();

    assert_eq!(order.len(), 2);
    assert_eq!(order[0], "db");
    assert_eq!(order[1], "web");
}

#[test]
fn test_circular_dependency_detection() {
    // The two services depend on one another; registering the batch
    // computes the order over the whole set and reports the cycle.
    let mut stack = stackctl::stack::Stack::new("test".to_string());
    let result = stack.register_services(&vec![
        Service::new("service1".to_string())
            .image("nginx".to_string())
            .depends_on_service("service2".to_string()),
        Service::new("service2".to_string())
            .image("postgres".to_string())
            .depends_on_service("service1".to_string()),
    ]);
    assert!(result.is_err());
    assert!(result.unwrap_err().message().contains("Circular dependency"));
    // The rejected batch left the stack empty.
    assert_eq!(stack.service_count(), 0);
}

#[test]
fn missing_dependency_is_rejected_whole() {
    let mut stack = StackDefinition::new("test".to_string());
    stack
        .set_service(
            "db".to_string(),
            Service::new("db".to_string()).image("postgres:13".to_string()),
        )
        .unwrap();
    let err = stack
        .set_service(
            "web".to_string(),
            Service::new("web".to_string())
                .image("nginx".to_string())
                .depends_on_service("cache".to_string()),
        )
        .unwrap_err();
    assert_eq!(err.kind(), ErrorKind::Configuration);
    assert_eq!(
        err.message(),
        "Service 'web' depends on 'cache' which is not defined".to_string()
    );
    // The rejected mutation left the definition as it was.
    assert_eq!(stack.get_service_names(), vec!["db".to_string()]);
    assert_eq!(stack.get_deployment_order(), &vec!["db".to_string()]);
}

#[test]
fn removing_a_depended_on_service_is_rejected() {
    let mut stack = StackDefinition::new("test".to_string());
    stack
        .set_service(
            "db".to_string(),
            Service::new("db".to_string()).image("postgres:13".to_string()),
        )
        .unwrap();
    stack
        .set_service(
            "web".to_string(),
            Service::new("web".to_string())
                .image("nginx".to_string())
                .depends_on_service("db".to_string()),
        )
        .unwrap();
    let err = stack.remove_service("db").unwrap_err();
    assert_eq!(err.kind(), ErrorKind::Configuration);
    assert_eq!(stack.get_service_names().len(), 2);

    // Removing the leaf service is fine.
    let removed = stack.remove_service("web").unwrap();
    assert_eq!(removed.unwrap().name(), "web");
    assert_eq!(stack.get_service_names(), vec!["db".to_string()]);

    // Removing an absent service removes nothing.
    assert!(stack.remove_service("ghost").unwrap().is_none());
}

#[test]
fn order_recomputation_is_idempotent() {
    let mut stack = StackDefinition::new("test".to_string());
    stack
        .set_service(
            "db".to_string(),
            Service::new("db".to_string()).image("postgres:13".to_string()),
        )
        .unwrap();
    stack
        .set_service(
            "cache".to_string(),
            Service::new("cache".to_string()).image("redis:7".to_string()),
        )
        .unwrap();
    stack
        .set_service(
            "web".to_string(),
            Service::new("web".to_string())
                .image("nginx".to_string())
                .depends_on(vec!["db".to_string(), "cache".to_string()]),
        )
        .unwrap();
    let first = stack.get_deployment_order().clone();
    stack.build_deployment_order().unwrap();
    let second = stack.get_deployment_order().clone();
    assert_eq!(first, second);
    assert_eq!(
        first,
        vec!["db".to_string(), "cache".to_string(), "web".to_string()]
    );
}

#[test]
fn dependencies_come_before_dependents() {
    let mut stack = StackDefinition::new("test".to_string());
    stack
        .set_service(
            "a".to_string(),
            Service::new("a".to_string())
                .image("x".to_string())
                .depends_on(vec!["b".to_string(), "c".to_string()]),
        )
        .unwrap_err();
    stack
        .set_service(
            "c".to_string(),
            Service::new("c".to_string()).image("x".to_string()),
        )
        .unwrap();
    stack
        .set_service(
            "b".to_string(),
            Service::new("b".to_string())
                .image("x".to_string())
                .depends_on_service("c".to_string()),
        )
        .unwrap();
    stack
        .set_service(
            "a".to_string(),
            Service::new("a".to_string())
                .image("x".to_string())
                .depends_on(vec!["b".to_string(), "c".to_string()]),
        )
        .unwrap();
    let order = stack.get_deployment_order().clone();
    let pos = |name: &str| order.iter().position(|x| x == name).unwrap();
    assert!(pos("c") < pos("b"));
    assert!(pos("b") < pos("a"));
    assert_eq!(order.len(), 3);
}

#[test]
fn empty_definition_has_empty_order() {
    let mut stack = StackDefinition::new("test".to_string());
    stack.build_deployment_order().unwrap();
    assert!(stack.get_deployment_order().is_empty());
}

#[test]
fn scale_policies_round_trip() {
    let mut stack = StackDefinition::new("test".to_string());
    assert!(stack.get_scale_policy("web").is_none());
    stack.set_scale_policy(
        "web".to_string(),
        ScalePolicy {
            replicas: 3,
            strategy: ScaleStrategy::RollingUpdate,
        },
    );
    let p = stack.get_scale_policy("web").unwrap();
    assert_eq!(p.replicas, 3);
    assert!(matches!(p.strategy, ScaleStrategy::RollingUpdate));
    stack.set_scale_policy(
        "web".to_string(),
        ScalePolicy {
            replicas: 1,
            strategy: ScaleStrategy::Recreate,
        },
    );
    assert_eq!(stack.get_scale_policy("web").unwrap().replicas, 1);
}
