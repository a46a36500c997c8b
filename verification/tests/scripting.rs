use eucalyptus_core::jvm::{
    build_classpath, context_signature, host_jar_needs_update, jdwp_option, JDWP_END_PORT, JDWP_FIRST_PORT, join_with, jvm_options, list_separator,
    log_writer_class, JavaContext, RuntimeMode, ScriptError, SystemManagerCall,
};
use eucalyptus_core::scripting::{KotlinComponents, ScriptManager};

#[test]
fn kotlin_components_attach_detach() {
    let mut k = KotlinComponents::default();
    assert!(!k.has("a.B"));
    k.attach("a.B");
    k.attach("c.D");
    k.attach("a.B");
    assert_eq!(k.fqcns, vec!["a.B".to_string(), "c.D".to_string()]);
    assert!(k.has("a.B"));
    k.detach("a.B");
    assert!(!k.has("a.B"));
    assert_eq!(k.fqcns, vec!["c.D".to_string()]);
    k.detach("missing");
    assert_eq!(k.fqcns, vec!["c.D".to_string()]);
}

#[test]
fn requests_need_a_system_manager() {
    let mut ctx = JavaContext::with_no_handles();
    match ctx.load_systems_for_tag("enemy") {
        Err(ScriptError::NotInitialised { message }) => {
            assert_eq!(message, "SystemManager not initialised when loading systems for tag: enemy")
        }
        other => panic!("unexpected {:?}", other),
    }
    match ctx.get_total_system_count() {
        Err(ScriptError::NotInitialised { message }) => {
            assert_eq!(message, "SystemManager not initialised when getting total system count.")
        }
        other => panic!("unexpected {:?}", other),
    }
    match ctx.reload() {
        Err(ScriptError::NotInitialised { message }) => {
            assert_eq!(message, "SystemManager not initialised for reload.")
        }
        other => panic!("unexpected {:?}", other),
    }
}

#[test]
fn initialisation_and_requests() {
    let mut ctx = JavaContext::with_no_handles();
    let plan = ctx.init_plan();
    assert!(plan.create_native_engine && plan.create_engine && plan.create_system_manager);
    ctx.adopt_handles(1, 2, 3);
    let plan = ctx.init_plan();
    assert!(!plan.create_native_engine && !plan.create_engine && !plan.create_system_manager);
    ctx.adopt_handles(7, 8, 9);
    assert_eq!(ctx.handles(), (Some(1), Some(2), Some(3)));

    let call = ctx.load_systems_for_entities("t", &[5, u64::MAX]).unwrap();
    assert_eq!(call.manager, 3);
    assert_eq!(call.call.method_name(), "loadSystemsForEntities");
    assert_eq!(call.call.signature(), "(Ljava/lang/String;[J)V");
    match call.call {
        SystemManagerCall::LoadSystemsForEntities { tag, entity_ids } => {
            assert_eq!(tag, "t");
            assert_eq!(entity_ids, vec![5, -1]);
        }
        other => panic!("unexpected {:?}", other),
    }
    let count = ctx.get_system_count_for_tag("t").unwrap();
    assert_eq!(count.call.signature(), "(Ljava/lang/String;)I");
    assert!(ctx.clear_engine().is_ok());
    assert_eq!(ctx.handles(), (None, None, None));
    assert!(ctx.has_systems_for_tag("t").is_err());
}

#[test]
fn launch_options() {
    assert_eq!(context_signature(8), "(JJJJJJJJ)V");
    assert_eq!(context_signature(0), "()V");
    assert_eq!(list_separator("windows"), ";");
    assert_eq!(list_separator("linux"), ":");
    assert_eq!(join_with(&vec!["a".into(), "b".into(), "c".into()], ":"), "a:b:c");
    assert_eq!(build_classpath(vec![], "/deps/host.jar", ":"), "/deps/host.jar");
    assert_eq!(
        build_classpath(vec!["/d/z.jar".into(), "/d/a.jar".into()], "/d/host.jar", ":"),
        "/d/a.jar:/d/z.jar"
    );
    assert_eq!(jvm_options(Some("-Xmx1g".into()), "cp", "/exe", "linux", true), vec!["-Xmx1g"]);
    assert_eq!(
        jvm_options(None, "cp", "/exe", "linux", true),
        vec![
            "-Djava.class.path=cp".to_string(),
            "-Djava.library.path=/exe:/usr/java/packages/lib:/usr/lib64:/lib64:/lib:/usr/lib:.".to_string(),
            "-Deucalyptus.core.lib=/exe/libeucalyptus_core.so".to_string(),
        ]
    );
    assert_eq!(jvm_options(None, "cp", "/exe", "linux", false), vec!["-Djava.class.path=cp"]);
}

#[test]
fn host_jar_update_decision() {
    assert!(host_jar_needs_update(&None, b"abc"));
    assert!(!host_jar_needs_update(&Some("  abc\n".to_string()), b"abc"));
    assert!(host_jar_needs_update(&Some("abd".to_string()), b"abc"));
}

#[test]
fn log_writer_choice() {
    assert_eq!(log_writer_class(Some(RuntimeMode::Editor), true), "com.dropbear.logging.SocketWriter");
    assert_eq!(log_writer_class(Some(RuntimeMode::PlayMode), false), "com.dropbear.logging.StdoutWriter");
    assert_eq!(log_writer_class(Some(RuntimeMode::Runtime), true), "com.dropbear.logging.StdoutWriter");
    assert_eq!(log_writer_class(None, true), "com.dropbear.logging.StdoutWriter");
    assert_eq!(RuntimeMode::default(), RuntimeMode::Unset);
}

#[test]
fn registration_is_a_no_op() {
    assert!(ScriptManager::register_components().is_ok());
    assert!(ScriptManager::register_callbacks().is_ok());
    assert!(JavaContext::register_components().is_ok());
    assert!(JavaContext::register_callbacks().is_ok());
}

#[test]
fn jdwp_agent_option() {
    assert_eq!(
        jdwp_option(Some(RuntimeMode::PlayMode), Some(6751), None),
        Some("-agentlib:jdwp=transport=dt_socket,server=y,suspend=n,address=*:6751".to_string())
    );
    assert_eq!(
        jdwp_option(Some(RuntimeMode::Runtime), Some(6760), Some(false)),
        Some("-agentlib:jdwp=transport=dt_socket,server=y,suspend=y,address=*:6760".to_string())
    );
    assert_eq!(jdwp_option(Some(RuntimeMode::Editor), Some(6751), None), None);
    assert_eq!(jdwp_option(None, Some(6751), None), None);
    assert_eq!(jdwp_option(Some(RuntimeMode::PlayMode), None, Some(true)), None);
    assert_eq!((JDWP_FIRST_PORT, JDWP_END_PORT), (6751, 6771));
}
