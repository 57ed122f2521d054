use stackctl::error::ErrorKind;
use stackctl::service::Service;
use stackctl::stack::HealthState;
use stackctl::stack::InspectOutcome;
use stackctl::stack::ScalePlan;
use stackctl::stack::Stack;
use stackctl::state::StackStatus;

/// A stack with a database and a web service that depends on it, as a
/// deployment driver whose runtime calls all succeed would leave it
/// after `up`.
fn deployed_stack() -> Stack {
    let mut stack = Stack::new("test".to_string());
    stack
        .register_service(Service::new("db".to_string()).image("postgres:13".to_string()))
        .unwrap();
    stack
        .register_service(
            Service::new("web".to_string())
                .image("nginx".to_string())
                .depends_on_service("db".to_string()),
        )
        .unwrap();
    stack.up_begin().unwrap();
    for plan in stack.network_plan() {
        let id = format!("{}-id", plan.runtime_name);
        stack.record_network(plan.logical, id);
    }
    for plan in stack.volume_plan() {
        stack.record_volume(plan.logical, plan.runtime_name);
    }
    for service in stack.get_deployment_order() {
        let plans = stack.container_plan(&service).unwrap();
        for plan in plans {
            let id = format!("{}-cid", plan.name);
            stack.record_container(plan.service, id);
        }
    }
    stack.finish_up();
    stack
}

#[test]
fn up_with_successful_runtime_reaches_running() {
    let stack = deployed_stack();
    assert_eq!(stack.get_deployment_order(), vec!["db".to_string(), "web".to_string()]);
    assert_eq!(stack.state.status, StackStatus::Running);
    assert_eq!(
        stack.tracked_containers("db"),
        vec!["test_db_1-cid".to_string()]
    );
    assert_eq!(
        stack.tracked_containers("web"),
        vec!["test_web_1-cid".to_string()]
    );
    assert_eq!(stack.tracked_networks(), vec!["test_default-id".to_string()]);
}

#[test]
fn registration_rejects_a_missing_dependency_whole() {
    let mut stack = Stack::new("test".to_string());
    let err = stack
        .register_service(
            Service::new("web".to_string())
                .image("nginx".to_string())
                .depends_on_service("db".to_string()),
        )
        .unwrap_err();
    assert_eq!(err.kind(), ErrorKind::Configuration);
    assert_eq!(
        err.message(),
        "Service 'web' depends on 'db' which is not defined".to_string()
    );
    // The rejected registration left the stack exactly as it was.
    assert_eq!(stack.service_count(), 0);
    assert_eq!(stack.state.status, StackStatus::NotDeployed);
}

#[test]
fn batch_registration_rejects_duplicates_whole() {
    let mut stack = Stack::new("test".to_string());
    let err = stack
        .register_services(&vec![
            Service::new("db".to_string()).image("postgres:13".to_string()),
            Service::new("db".to_string()).image("postgres:14".to_string()),
        ])
        .unwrap_err();
    assert_eq!(err.kind(), ErrorKind::Configuration);
    assert_eq!(stack.service_count(), 0);

    // A batch may reference later members: order is computed once all
    // of its services are in place.
    stack
        .register_services(&vec![
            Service::new("web".to_string())
                .image("nginx".to_string())
                .depends_on_service("db".to_string()),
            Service::new("db".to_string()).image("postgres:13".to_string()),
        ])
        .unwrap();
    assert_eq!(
        stack.get_deployment_order(),
        vec!["db".to_string(), "web".to_string()]
    );
}

#[test]
fn build_only_service_is_not_supported() {
    let mut stack = Stack::new("test".to_string());
    stack
        .register_service(Service::new("app".to_string()).build_context(".".to_string()))
        .unwrap();
    stack.up_begin().unwrap();
    let err = stack.container_plan("app").unwrap_err();
    assert_eq!(err.kind(), ErrorKind::NotSupported);
}

#[test]
fn service_without_image_is_a_configuration_error() {
    let mut stack = Stack::new("test".to_string());
    stack
        .register_service(Service::new("app".to_string()))
        .unwrap();
    stack.up_begin().unwrap();
    let err = stack.container_plan("app").unwrap_err();
    assert_eq!(err.kind(), ErrorKind::Configuration);
    assert_eq!(
        err.message(),
        "Service 'app' has no image defined".to_string()
    );
}

#[test]
fn partial_deployment_is_reported() {
    let mut stack = Stack::new("test".to_string());
    stack
        .register_service(Service::new("db".to_string()).image("postgres:13".to_string()))
        .unwrap();
    stack
        .register_service(Service::new("web".to_string()).image("nginx".to_string()))
        .unwrap();
    stack.up_begin().unwrap();
    // Only the database deploys; the web service's creation failed.
    stack.record_container("db".to_string(), "c1".to_string());
    stack.finish_up();
    assert_eq!(stack.state.status, StackStatus::PartiallyRunning);

    // A deployment where nothing was created has failed.
    let mut empty = Stack::new("test".to_string());
    empty
        .register_service(Service::new("db".to_string()).image("postgres:13".to_string()))
        .unwrap();
    empty.up_begin().unwrap();
    empty.finish_up();
    assert_eq!(empty.state.status, StackStatus::Failed);
}

#[test]
fn duplicate_registration_is_refused() {
    let mut stack = Stack::new("test".to_string());
    stack
        .register_service(Service::new("db".to_string()).image("postgres:13".to_string()))
        .unwrap();
    let err = stack
        .register_service(Service::new("db".to_string()).image("postgres:14".to_string()))
        .unwrap_err();
    assert_eq!(err.kind(), ErrorKind::Configuration);
    assert_eq!(
        err.message(),
        "Service 'db' already registered in stack 'test'".to_string()
    );
    assert_eq!(stack.service_count(), 1);
    assert!(stack.has_service("db"));
    assert!(!stack.has_service("web"));
    assert!(stack.unregister_service("db").unwrap());
    assert!(!stack.unregister_service("db").unwrap());
    assert_eq!(stack.service_count(), 0);
}

#[test]
fn scale_up_continues_replica_indices() {
    let mut stack = deployed_stack();
    let plan = stack.scale("web", 3).unwrap();
    match plan {
        ScalePlan::Up { names } => {
            assert_eq!(names, vec!["test_web_2".to_string(), "test_web_3".to_string()]);
            for name in names {
                stack.record_container("web".to_string(), format!("{}-cid", name));
            }
        }
        _ => panic!("expected a scale-up plan"),
    }
    assert_eq!(stack.tracked_containers("web").len(), 3);
}

#[test]
fn scale_to_current_count_is_a_no_op() {
    let mut stack = deployed_stack();
    let plan = stack.scale("db", 1).unwrap();
    assert!(matches!(plan, ScalePlan::NoOp));
    let before = stack.tracked_containers("db");
    // Scaling again to the same target changes nothing the second time.
    let again = stack.scale("db", 1).unwrap();
    assert!(matches!(again, ScalePlan::NoOp));
    assert_eq!(stack.tracked_containers("db"), before);
}

#[test]
fn scale_down_keeps_the_lowest_replicas() {
    let mut stack = deployed_stack();
    match stack.scale("web", 3).unwrap() {
        ScalePlan::Up { names } => {
            for name in names {
                stack.record_container("web".to_string(), format!("{}-cid", name));
            }
        }
        _ => panic!("expected a scale-up plan"),
    }
    assert_eq!(stack.tracked_containers("web").len(), 3);
    match stack.scale("web", 1).unwrap() {
        ScalePlan::Down { removed } => {
            // The removed containers are popped from the end of the
            // tracked list: the highest replica index leaves first.
            assert_eq!(
                removed,
                vec!["test_web_3-cid".to_string(), "test_web_2-cid".to_string()]
            );
        }
        _ => panic!("expected a scale-down plan"),
    }
    // The survivor is the original first replica.
    assert_eq!(
        stack.tracked_containers("web"),
        vec!["test_web_1-cid".to_string()]
    );
}

#[test]
fn scale_on_unknown_service_fails_before_any_call() {
    let mut stack = deployed_stack();
    let err = stack.scale("ghost", 2).unwrap_err();
    assert_eq!(err.kind(), ErrorKind::NotFound);
    assert_eq!(err.message(), "Service 'ghost' not found in stack".to_string());
}

#[test]
fn scale_on_stopped_stack_only_records_the_policy() {
    let mut stack = Stack::new("test".to_string());
    stack
        .register_service(Service::new("web".to_string()).image("nginx".to_string()))
        .unwrap();
    let plan = stack.scale("web", 4).unwrap();
    assert!(matches!(plan, ScalePlan::PolicyOnly));
    assert_eq!(stack.replicas_for("web"), 4);
    // The recorded policy drives the next deployment.
    stack.up_begin().unwrap();
    let plans = stack.container_plan("web").unwrap();
    assert_eq!(plans.len(), 4);
    assert_eq!(plans[3].name, "test_web_4".to_string());
    assert_eq!(plans[3].replica, 4);
}

#[test]
fn restart_hands_back_the_tracked_containers() {
    let mut stack = deployed_stack();
    let ids = stack.restart_service("web").unwrap();
    assert_eq!(ids, vec!["test_web_1-cid".to_string()]);
    assert_eq!(stack.tracked_containers("web").len(), 0);
    assert_eq!(stack.state.status, StackStatus::Running);
    assert!(stack.restart_service("ghost").is_err());
}

#[test]
fn down_clears_state_even_when_calls_fail() {
    let mut stack = deployed_stack();
    // Teardown walks the deployment order in reverse.
    assert_eq!(
        stack.down_service_order(),
        vec!["web".to_string(), "db".to_string()]
    );
    let mut ignored: Vec<String> = Vec::new();
    let mut stopped: Vec<String> = Vec::new();
    for service in stack.down_service_order() {
        for id in stack.tracked_containers(&service) {
            // Every stop and remove is issued here, dependents first.
            stopped.push(id);
        }
    }
    assert_eq!(
        stopped,
        vec!["test_web_1-cid".to_string(), "test_db_1-cid".to_string()]
    );
    for network in stack.tracked_networks() {
        // Pretend this delete call failed; teardown carries on and the
        // suppressed error is collected rather than raised.
        ignored.push(network);
    }
    stack.reset();
    assert_eq!(ignored.len(), 1);
    // The runtime state equals its default in every part.
    assert_eq!(stack.state.status, StackStatus::NotDeployed);
    assert_eq!(stack.state.containers.len(), 0);
    assert_eq!(stack.state.networks.len(), 0);
    assert_eq!(stack.state.volumes.len(), 0);
    // The definition survives, so the stack can be redeployed.
    assert_eq!(stack.service_count(), 2);
}

#[test]
fn volume_plan_pre_creates_named_sources_once() {
    let mut stack = Stack::new("test".to_string());
    stack
        .register_service(
            Service::new("db".to_string())
                .image("postgres:13".to_string())
                .volume("pgdata:/var/lib/postgresql/data".to_string())
                .volume("/etc/conf:/conf".to_string()),
        )
        .unwrap();
    stack
        .register_service(
            Service::new("backup".to_string())
                .image("backup:1".to_string())
                .volume("pgdata:/snapshot".to_string()),
        )
        .unwrap();
    let plan = stack.volume_plan();
    assert_eq!(plan.len(), 1);
    assert_eq!(plan[0].logical, "pgdata".to_string());
    assert_eq!(plan[0].runtime_name, "test_pgdata".to_string());
}

#[test]
fn container_plan_rewrites_named_volumes() {
    let mut stack = Stack::new("test".to_string());
    stack
        .register_service(
            Service::new("db".to_string())
                .image("postgres:13".to_string())
                .volume("pgdata:/var/lib/postgresql/data".to_string())
                .volume("/etc/conf:/conf:ro".to_string()),
        )
        .unwrap();
    stack.up_begin().unwrap();
    for plan in stack.volume_plan() {
        stack.record_volume(plan.logical, plan.runtime_name);
    }
    let plans = stack.container_plan("db").unwrap();
    assert_eq!(plans.len(), 1);
    assert_eq!(
        plans[0].volumes,
        vec![
            "test_pgdata:/var/lib/postgresql/data".to_string(),
            "/etc/conf:/conf:ro".to_string(),
        ]
    );
    assert_eq!(
        plans[0].labels[0],
        "com.docker.compose.project=test".to_string()
    );
    assert_eq!(
        plans[0].labels[1],
        "com.docker.compose.service=db".to_string()
    );
}

#[test]
fn status_aggregates_health_per_service() {
    let mut stack = deployed_stack();
    match stack.scale("web", 2).unwrap() {
        ScalePlan::Up { names } => {
            for name in names {
                stack.record_container("web".to_string(), format!("{}-cid", name));
            }
        }
        _ => panic!("expected a scale-up plan"),
    }
    let reports = vec![
        (
            "test_db_1-cid".to_string(),
            InspectOutcome::Info {
                running: true,
                health: HealthState::Healthy,
            },
        ),
        (
            "test_web_1-cid".to_string(),
            InspectOutcome::Info {
                running: true,
                health: HealthState::NoHealthCheck,
            },
        ),
        // No report covers test_web_2-cid: it degrades to "not found".
    ];
    let report = stack.aggregate_status(&reports);
    assert_eq!(report.status, StackStatus::Running);
    assert_eq!(report.total_containers, 3);
    assert_eq!(report.networks, 1);
    assert_eq!(report.services.len(), 2);
    let db = &report.services[0];
    assert_eq!(db.name, "db".to_string());
    assert_eq!(db.replicas, 1);
    assert_eq!(db.running, 1);
    assert_eq!(db.healthy, 1);
    assert_eq!(db.unhealthy, 0);
    let web = &report.services[1];
    assert_eq!(web.replicas, 2);
    assert_eq!(web.running, 1);
    assert_eq!(web.healthy, 0);
    assert!(!web.containers[1].found);
    assert!(web.containers[0].found);
}

#[test]
fn logs_prefix_each_line_with_the_service() {
    let stack = deployed_stack();
    let targets = stack.log_targets(None);
    assert_eq!(
        targets,
        vec![
            ("db".to_string(), "test_db_1-cid".to_string()),
            ("web".to_string(), "test_web_1-cid".to_string()),
        ]
    );
    let only_web = stack.log_targets(Some(vec!["web".to_string()]));
    assert_eq!(only_web.len(), 1);
    // A requested service that is unknown or has nothing tracked is
    // omitted, not an error.
    let none = stack.log_targets(Some(vec!["ghost".to_string()]));
    assert!(none.is_empty());

    let fetched = vec![
        ("db".to_string(), "ready".to_string()),
        ("web".to_string(), "listening".to_string()),
    ];
    let text = Stack::format_logs(&fetched);
    assert_eq!(text, "[db] ready\n[web] listening".to_string());
}

#[test]
fn to_yaml_renders_the_definition() {
    let mut stack = Stack::new("test".to_string());
    stack
        .register_services(&vec![
            Service::new("web".to_string())
                .image("nginx:latest".to_string())
                .ports(vec!["80:80".to_string()])
                .env("ENV".to_string(), "production".to_string())
                .volume("logs:/var/log".to_string())
                .restart_policy("unless-stopped".to_string())
                .depends_on_service("db".to_string()),
            Service::new("db".to_string()).image("postgres:13".to_string()),
        ])
        .unwrap();
    let yaml = stack.to_yaml();
    let expected = "version: '3.8'\nservices:\n  web:\n    image: nginx:latest\n    ports:\n      - \"80:80\"\n    environment:\n      ENV: production\n    volumes:\n      - logs:/var/log\n    restart: unless-stopped\n    depends_on:\n      - db\n  db:\n    image: postgres:13\n";
    assert_eq!(yaml, expected.to_string());
}

#[test]
fn stack_accessors_report_the_registration() {
    let mut stack = Stack::new("mystack".to_string());
    assert_eq!(stack.name(), "mystack".to_string());
    stack
        .register_service(Service::new("a".to_string()).image("x".to_string()))
        .unwrap();
    stack
        .register_service(Service::new("b".to_string()).image("y".to_string()))
        .unwrap();
    assert_eq!(
        stack.get_registered_services(),
        vec!["a".to_string(), "b".to_string()]
    );
    assert_eq!(stack.get_services(), vec!["a".to_string(), "b".to_string()]);
    assert_eq!(stack.service_count(), 2);
}
