//! The compiler's public entry point: one call takes a structured template
//! unit and the recognized options and returns the emitted module text with
//! the pass-through stylesheet, or one descriptive error message.

use crate::generate::{generate_js_from_blocks, spec_generate_js, TemplateUnit, TemplateUnitV};
use crate::info::spec_error_message;
use vstd::prelude::*;

verus! {

/// What one compilation produced: the module text and the optional
/// stylesheet passed through unchanged.
#[derive(Debug)]
pub struct BlveCompilerOutput {
    js: String,
    css: Option<String>,
}

/// The ghost form of a compilation's output.
#[verifier::ext_equal]
pub struct BlveCompilerOutputV {
    pub js: Seq<char>,
    pub css: Option<Seq<char>>,
}

impl View for BlveCompilerOutput {
    type V = BlveCompilerOutputV;

    closed spec fn view(&self) -> BlveCompilerOutputV {
        BlveCompilerOutputV {
            js: self.js@,
            css: match self.css {
                Some(ref s) => Some(s@),
                None => None,
            },
        }
    }
}

impl BlveCompilerOutput {
    /// The emitted module text.
    pub fn js(&self) -> (r: String)
        ensures
            r@ == self@.js,
    {
        self.js.clone()
    }

    /// The stylesheet passed through unchanged, when the template had one.
    pub fn css(&self) -> (r: Option<String>)
        ensures
            (match r {
                Some(s) => self@.css == Some(s@),
                None => self@.css is None,
            }),
    {
        match self.css {
            Some(ref s) => Some(s.clone()),
            None => None,
        }
    }
}

/// What compiling a template unit returns: the output on success, and on
/// failure the failing stage's single descriptive message.
pub open spec fn spec_compile(
    t: TemplateUnitV,
    no_export: Option<bool>,
    runtime_path: Option<Seq<char>>,
) -> Result<BlveCompilerOutputV, Seq<char>> {
    match spec_generate_js(t, no_export, runtime_path) {
        Ok((js, css)) => Ok(BlveCompilerOutputV { js, css }),
        Err(e) => Err(spec_error_message(e)),
    }
}

/// Compiles one structured template unit. `no_export` selects a locally
/// named constant instead of a default export; `runtime_path` overrides the
/// module path of the generated import; `export_name` is recognized but
/// reserved, with no effect on the pipeline.
#[allow(unused_variables)]
pub fn compile(
    template: &TemplateUnit,
    no_export: Option<bool>,
    export_name: Option<String>,
    runtime_path: Option<String>,
) -> (r: Result<BlveCompilerOutput, String>)
    ensures
        ({
            let s = spec_compile(template@, no_export, match runtime_path {
                Some(ref p) => Some(p@),
                None => None::<Seq<char>>,
            });
            match r {
                Ok(out) => s == Ok::<BlveCompilerOutputV, Seq<char>>(out@),
                Err(m) => s is Err && m@ == s->Err_0,
            }
        }),
{
    match generate_js_from_blocks(template, no_export, runtime_path) {
        Ok((js, css)) => Ok(BlveCompilerOutput { js, css }),
        Err(e) => Err(e.message()),
    }
}

} // verus!
