//! The JavaScript engine abstraction: compiled modules, isolates, quotas and
//! engine errors, with the engine that reports that none is initialised.

use vstd::prelude::*;
use crate::text::push_str;

verus! {

/// Errors of JavaScript engine operations.
#[derive(Clone, Debug)]
pub enum JsError {
    CompileError(String),
    ExecuteError(String),
    IsolateError(String),
    Timeout(u64),
    ResourceExceeded(String),
    NotInitialized(String),
}

/// The message of a JavaScript engine error.
pub open spec fn js_error_text(e: JsError) -> Seq<char> {
    match e {
        JsError::CompileError(s) => "compilation failed: "@ + s@,
        JsError::ExecuteError(s) => "execution failed: "@ + s@,
        JsError::IsolateError(s) => "isolate error: "@ + s@,
        JsError::Timeout(ms) => "timeout: execution exceeded "@ + crate::data::decimal(ms as nat) + "ms"@,
        JsError::ResourceExceeded(s) => "resource exceeded: "@ + s@,
        JsError::NotInitialized(s) => "engine not initialized: "@ + s@,
    }
}

impl JsError {
    /// The error's message.
    pub fn message(&self) -> (m: String)
        ensures
            m@ == js_error_text(*self),
    {
        let mut v: Vec<char> = Vec::new();
        match self {
            JsError::CompileError(s) => {
                push_str(&mut v, "compilation failed: ");
                push_str(&mut v, s.as_str());
            },
            JsError::ExecuteError(s) => {
                push_str(&mut v, "execution failed: ");
                push_str(&mut v, s.as_str());
            },
            JsError::IsolateError(s) => {
                push_str(&mut v, "isolate error: ");
                push_str(&mut v, s.as_str());
            },
            JsError::Timeout(ms) => {
                push_str(&mut v, "timeout: execution exceeded ");
                let d = crate::data::decimal_string(*ms);
                push_str(&mut v, d.as_str());
                push_str(&mut v, "ms");
            },
            JsError::ResourceExceeded(s) => {
                push_str(&mut v, "resource exceeded: ");
                push_str(&mut v, s.as_str());
            },
            JsError::NotInitialized(s) => {
                push_str(&mut v, "engine not initialized: ");
                push_str(&mut v, s.as_str());
            },
        }
        crate::text::string_from_chars(v.as_slice())
    }
}

/// A compiled module: its source, compiled again on execution.
#[derive(Clone, Debug)]
pub struct CompiledModule {
    source: String,
}

impl CompiledModule {
    pub closed spec fn source_view(&self) -> Seq<char> {
        self.source@
    }

    /// The module of `source`.
    pub fn from_source(source: String) -> (m: CompiledModule)
        ensures
            m.source_view() == source@,
    {
        CompiledModule { source }
    }

    /// The module's source.
    pub fn source(&self) -> (s: &str)
        ensures
            s@ == self.source_view(),
    {
        self.source.as_str()
    }
}

/// Resource limits of an isolate.
#[derive(Clone, Copy, Debug, Default, PartialEq, Eq)]
pub struct JsQuota {
    pub max_cpu_ms: Option<u64>,
    pub max_memory_bytes: Option<u64>,
    pub max_instructions: Option<u64>,
}

/// An isolated execution context; engines without isolates hand out empty ones.
#[derive(Clone, Debug)]
pub struct JsIsolate {
    quota: JsQuota,
}

impl JsIsolate {
    /// An isolate without backing engine state.
    pub fn new() -> (i: JsIsolate)
        ensures
            i.quota_view() == (JsQuota { max_cpu_ms: None, max_memory_bytes: None, max_instructions: None }),
    {
        JsIsolate { quota: JsQuota { max_cpu_ms: None, max_memory_bytes: None, max_instructions: None } }
    }

    pub closed spec fn quota_view(&self) -> JsQuota {
        self.quota
    }
}

/// The message of the engine that has no JavaScript engine behind it.
pub open spec fn noop_text() -> Seq<char> {
    "No JavaScript engine initialized. Enable the `v8` feature."@
}

/// The engine used when no JavaScript engine is built in: compilation and
/// execution fail with `NotInitialized`; isolates can still be created.
#[derive(Clone, Copy, Debug, Default)]
pub struct NoopJsEngine;

impl NoopJsEngine {
    pub fn name(&self) -> (n: &'static str)
        ensures
            n@ == "noop"@,
    {
        "noop"
    }

    /// The error every compilation and execution fails with.
    pub fn not_initialized(&self) -> (e: JsError)
        ensures
            e matches JsError::NotInitialized(s) && s@ == noop_text(),
    {
        JsError::NotInitialized("No JavaScript engine initialized. Enable the `v8` feature.".to_owned())
    }

    /// Always fails with `NotInitialized`.
    pub fn compile(&self, source: &str) -> (r: Result<CompiledModule, JsError>)
        ensures
            r matches Err(JsError::NotInitialized(s)) && s@ == noop_text(),
    {
        Err(self.not_initialized())
    }

    /// An empty isolate, whatever the quota: the quota is not applied.
    pub fn create_isolate(&self, quota: JsQuota) -> (r: Result<JsIsolate, JsError>)
        ensures
            r matches Ok(i) && i.quota_view() == (JsQuota {
                max_cpu_ms: None,
                max_memory_bytes: None,
                max_instructions: None,
            }),
    {
        Ok(JsIsolate::new())
    }

    /// The engine has no isolates of its own.
    pub fn supports_isolates(&self) -> (b: bool)
        ensures
            !b,
    {
        false
    }
}

/// The message of the V8 engine when V8 is not linked into this build.
pub open spec fn v8_missing_text() -> Seq<char> {
    "the V8 engine is not linked into this build"@
}

/// The V8 engine's handle. V8 itself is not linked into this build, so
/// creating an isolate fails with `NotInitialized`.
#[derive(Clone, Copy, Debug, Default)]
pub struct V8JsEngine;

impl V8JsEngine {
    pub fn new() -> (e: V8JsEngine) {
        V8JsEngine
    }

    pub fn name(&self) -> (n: &'static str)
        ensures
            n@ == "v8"@,
    {
        "v8"
    }

    /// Fails with `NotInitialized`: no V8 isolate can be created here.
    pub fn create_isolate(&self, quota: JsQuota) -> (r: Result<JsIsolate, JsError>)
        ensures
            r matches Err(JsError::NotInitialized(s)) && s@ == v8_missing_text(),
    {
        Err(JsError::NotInitialized("the V8 engine is not linked into this build".to_owned()))
    }
}

} // verus!
