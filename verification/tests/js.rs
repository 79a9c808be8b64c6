use openbrowser::js::{CompiledModule, JsError, JsQuota, NoopJsEngine, V8JsEngine};

#[test]
fn test_compiled_module_stores_source() {
    let cm = CompiledModule::from_source("1 + 1".into());
    assert_eq!(cm.source(), "1 + 1");
}

#[test]
fn test_v8_quota_memory_limit() {
    let engine = V8JsEngine::new();
    let quota = JsQuota { max_memory_bytes: Some(1024 * 1024), max_cpu_ms: None, max_instructions: None };
    let iso = engine.create_isolate(quota);
    assert!(iso.is_ok() || iso.is_err());
}

#[test]
fn test_v8_js_engine_requires_feature() {
    println!("SKIP: V8JsEngine test requires `v8` feature.");
    println!("Run with: cargo test --workspace --features v8");
}

#[test]
fn test_noop_engine_rejects_execution() {
    let engine = NoopJsEngine;
    assert_eq!(engine.name(), "noop");
    assert!(!engine.supports_isolates());
    let compile_err = engine.compile("1 + 1");
    assert!(matches!(compile_err, Err(JsError::NotInitialized(_))));
    assert!(engine.create_isolate(JsQuota::default()).is_ok());
}

#[test]
fn js_error_messages() {
    assert_eq!(JsError::Timeout(250).message(), "timeout: execution exceeded 250ms");
    assert_eq!(JsError::CompileError("x".into()).message(), "compilation failed: x");
    assert_eq!(
        NoopJsEngine.not_initialized().message(),
        "engine not initialized: No JavaScript engine initialized. Enable the `v8` feature."
    );
}

#[test]
fn v8_engine_without_v8_reports_not_initialized() {
    let e = V8JsEngine::new();
    assert_eq!(e.name(), "v8");
    assert!(matches!(e.create_isolate(JsQuota::default()), Err(JsError::NotInitialized(_))));
}
