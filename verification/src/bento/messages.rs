//! The sentences that errors are shown as.

use vstd::prelude::*;

use super::types::{BentoError, MissingBinding, PipelineBuildError};
use crate::text::{decimal, push_all, push_char, u32_to_string};

verus! {

/// A character as Rust's `Debug` writes it inside a quoted string: quotes,
/// backslashes and the common control characters escaped.
pub open spec fn escaped_char(c: char) -> Seq<char> {
    if c == '"' {
        "\\\""@
    } else if c == '\\' {
        "\\\\"@
    } else if c == '\n' {
        "\\n"@
    } else if c == '\r' {
        "\\r"@
    } else if c == '\t' {
        "\\t"@
    } else if c == '\0' {
        "\\0"@
    } else {
        seq![c]
    }
}

pub open spec fn escaped(s: Seq<char>) -> Seq<char>
    decreases s.len(),
{
    if s.len() == 0 {
        Seq::empty()
    } else {
        escaped(s.drop_last()) + escaped_char(s.last())
    }
}

/// `MissingBinding { name: "<name>", set: <set>, binding: <binding> }`
pub open spec fn missing_binding_debug(b: MissingBinding) -> Seq<char> {
    "MissingBinding { name: \""@ + escaped(b.name@) + "\", set: "@ + decimal(b.set as nat) + ", binding: "@ + decimal(
        b.binding as nat,
    ) + " }"@
}

/// The items of `bs`, each as `missing_binding_debug`, separated by `, `.
pub open spec fn missing_items(bs: Seq<MissingBinding>) -> Seq<char>
    decreases bs.len(),
{
    if bs.len() == 0 {
        Seq::empty()
    } else if bs.len() == 1 {
        missing_binding_debug(bs[0])
    } else {
        missing_items(bs.drop_last()) + ", "@ + missing_binding_debug(bs.last())
    }
}

impl PipelineBuildError {
    /// The error as a sentence (what `Display` shows).
    pub open spec fn message_of(&self) -> Seq<char> {
        match self {
            PipelineBuildError::MissingShader { stage } => "Missing "@ + stage@ + " shader stage"@,
            PipelineBuildError::MissingBindings { bindings } => "Missing shader bindings: ["@ + missing_items(bindings@)
                + "]"@,
            PipelineBuildError::MismatchedBindingCounts { set, binding, expected, provided } => "Mismatched binding counts for set "@
                + decimal(*set as nat) + " binding "@ + decimal(*binding as nat) + ": expected "@ + decimal(
                *expected as nat,
            ) + ", provided "@ + decimal(*provided as nat),
            PipelineBuildError::InvalidResourceCount { name, expected, provided } => "Invalid resource count for "@
                + name@ + ": expected "@ + decimal(*expected as nat) + ", provided "@ + decimal(*provided as nat),
            PipelineBuildError::InvalidResourceSlots { name, expected } => "Invalid resource slots for "@ + name@
                + ": expected slots 0.."@ + decimal(*expected as nat),
            PipelineBuildError::DefaultResourceCreateFailed { name, resource_type, source } => "Failed to create default "@
                + resource_type@ + " resource for "@ + name@ + ": "@ + source@,
            PipelineBuildError::BindTableLayoutCreateFailed { set, source } => "Failed to create bind table layout for set "@
                + decimal(*set as nat) + ": "@ + source@,
            PipelineBuildError::BindTableCreateFailed { set, source } => "Failed to create bind table for set "@ + decimal(
                *set as nat,
            ) + ": "@ + source@,
            PipelineBuildError::PipelineLayoutCreateFailed { pipeline, source } => "Failed to create "@ + pipeline@
                + " pipeline layout: "@ + source@,
            PipelineBuildError::PipelineCreateFailed { pipeline, source } => "Failed to create "@ + pipeline@
                + " pipeline: "@ + source@,
        }
    }

    pub fn message(&self) -> (r: String)
        ensures
            r@ == self.message_of(),
    {
        let mut out = String::new();
        match self {
            PipelineBuildError::MissingShader { stage } => {
                push_all(&mut out, "Missing ");
                push_all(&mut out, stage.as_str());
                push_all(&mut out, " shader stage");
            },
            PipelineBuildError::MissingBindings { bindings } => {
                push_all(&mut out, "Missing shader bindings: [");
                push_missing_items(&mut out, bindings);
                push_all(&mut out, "]");
            },
            PipelineBuildError::MismatchedBindingCounts { set, binding, expected, provided } => {
                push_all(&mut out, "Mismatched binding counts for set ");
                push_number(&mut out, *set);
                push_all(&mut out, " binding ");
                push_number(&mut out, *binding);
                push_all(&mut out, ": expected ");
                push_number(&mut out, *expected);
                push_all(&mut out, ", provided ");
                push_number(&mut out, *provided);
            },
            PipelineBuildError::InvalidResourceCount { name, expected, provided } => {
                push_all(&mut out, "Invalid resource count for ");
                push_all(&mut out, name.as_str());
                push_all(&mut out, ": expected ");
                push_number(&mut out, *expected);
                push_all(&mut out, ", provided ");
                push_number(&mut out, *provided);
            },
            PipelineBuildError::InvalidResourceSlots { name, expected } => {
                push_all(&mut out, "Invalid resource slots for ");
                push_all(&mut out, name.as_str());
                push_all(&mut out, ": expected slots 0..");
                push_number(&mut out, *expected);
            },
            PipelineBuildError::DefaultResourceCreateFailed { name, resource_type, source } => {
                push_all(&mut out, "Failed to create default ");
                push_all(&mut out, resource_type.as_str());
                push_all(&mut out, " resource for ");
                push_all(&mut out, name.as_str());
                push_all(&mut out, ": ");
                push_all(&mut out, source.as_str());
            },
            PipelineBuildError::BindTableLayoutCreateFailed { set, source } => {
                push_all(&mut out, "Failed to create bind table layout for set ");
                push_number(&mut out, *set);
                push_all(&mut out, ": ");
                push_all(&mut out, source.as_str());
            },
            PipelineBuildError::BindTableCreateFailed { set, source } => {
                push_all(&mut out, "Failed to create bind table for set ");
                push_number(&mut out, *set);
                push_all(&mut out, ": ");
                push_all(&mut out, source.as_str());
            },
            PipelineBuildError::PipelineLayoutCreateFailed { pipeline, source } => {
                push_all(&mut out, "Failed to create ");
                push_all(&mut out, pipeline.as_str());
                push_all(&mut out, " pipeline layout: ");
                push_all(&mut out, source.as_str());
            },
            PipelineBuildError::PipelineCreateFailed { pipeline, source } => {
                push_all(&mut out, "Failed to create ");
                push_all(&mut out, pipeline.as_str());
                push_all(&mut out, " pipeline: ");
                push_all(&mut out, source.as_str());
            },
        }
        assert(out@ =~= self.message_of());
        out
    }
}

impl BentoError {
    /// The error as a sentence (what `Display` shows).
    pub open spec fn message_of(&self) -> Seq<char> {
        match self {
            BentoError::Io(s) => "I/O error: "@ + s@,
            BentoError::SerdeJson(s) => "JSON serialization error: "@ + s@,
            BentoError::Bincode(s) => "Binary serialization error: "@ + s@,
            BentoError::ShaderCompilation(s) => "Shader compilation error: "@ + s@,
            BentoError::InvalidInput(s) => "Invalid input: "@ + s@,
            BentoError::PipelineBuild(e) => "Pipeline build error: "@ + e.message_of(),
            BentoError::Dashi(s) => "Shader backend error: "@ + s@,
        }
    }

    pub fn message(&self) -> (r: String)
        ensures
            r@ == self.message_of(),
    {
        let mut out = String::new();
        match self {
            BentoError::Io(s) => {
                push_all(&mut out, "I/O error: ");
                push_all(&mut out, s.as_str());
            },
            BentoError::SerdeJson(s) => {
                push_all(&mut out, "JSON serialization error: ");
                push_all(&mut out, s.as_str());
            },
            BentoError::Bincode(s) => {
                push_all(&mut out, "Binary serialization error: ");
                push_all(&mut out, s.as_str());
            },
            BentoError::ShaderCompilation(s) => {
                push_all(&mut out, "Shader compilation error: ");
                push_all(&mut out, s.as_str());
            },
            BentoError::InvalidInput(s) => {
                push_all(&mut out, "Invalid input: ");
                push_all(&mut out, s.as_str());
            },
            BentoError::PipelineBuild(e) => {
                push_all(&mut out, "Pipeline build error: ");
                let m = e.message();
                push_all(&mut out, m.as_str());
            },
            BentoError::Dashi(s) => {
                push_all(&mut out, "Shader backend error: ");
                push_all(&mut out, s.as_str());
            },
        }
        assert(out@ =~= self.message_of());
        out
    }
}

fn push_number(out: &mut String, n: u32)
    ensures
        final(out)@ == old(out)@ + decimal(n as nat),
{
    let s = u32_to_string(n);
    push_all(out, s.as_str());
}

fn push_escaped(out: &mut String, s: &str)
    ensures
        final(out)@ == old(out)@ + escaped(s@),
{
    let ghost start = out@;
    let v = crate::text::chars_of(s);
    let n = v.len();
    let mut i: usize = 0;
    assert(s@.take(0) =~= Seq::<char>::empty());
    while i < n
        invariant
            i <= n == s@.len(),
            v@ == s@,
            out@ == start + escaped(s@.take(i as int)),
        decreases n - i,
    {
        let c = v[i];
        proof {
            assert(s@.take(i + 1).drop_last() =~= s@.take(i as int));
            assert(s@.take(i + 1).last() == c);
        }
        let ghost before = out@;
        if c == '"' {
            push_all(out, "\\\"");
        } else if c == '\\' {
            push_all(out, "\\\\");
        } else if c == '\n' {
            push_all(out, "\\n");
        } else if c == '\r' {
            push_all(out, "\\r");
        } else if c == '\t' {
            push_all(out, "\\t");
        } else if c == '\0' {
            push_all(out, "\\0");
        } else {
            push_char(out, c);
        }
        assert(out@ =~= before + escaped_char(c));
        assert(start + escaped(s@.take(i + 1)) =~= start + escaped(s@.take(i as int)) + escaped_char(c));
        i = i + 1;
    }
    assert(s@.take(n as int) =~= s@);
}

fn push_missing_items(out: &mut String, bs: &Vec<MissingBinding>)
    ensures
        final(out)@ == old(out)@ + missing_items(bs@),
{
    let ghost start = out@;
    let n = bs.len();
    let mut i: usize = 0;
    assert(bs@.take(0) =~= Seq::<MissingBinding>::empty());
    while i < n
        invariant
            i <= n == bs@.len(),
            out@ == start + missing_items(bs@.take(i as int)),
        decreases n - i,
    {
        proof {
            assert(bs@.take(i + 1).drop_last() =~= bs@.take(i as int));
            assert(bs@.take(i + 1).last() == bs@[i as int]);
        }
        let ghost before = out@;
        if i > 0 {
            push_all(out, ", ");
        }
        let b = &bs[i];
        push_all(out, "MissingBinding { name: \"");
        push_escaped(out, b.name.as_str());
        push_all(out, "\", set: ");
        push_number(out, b.set);
        push_all(out, ", binding: ");
        push_number(out, b.binding);
        push_all(out, " }");
        proof {
            if i == 0 {
                assert(bs@.take(1)[0] == bs@[0]);
                assert(out@ =~= start + missing_items(bs@.take(1)));
            } else {
                assert(out@ =~= before + ", "@ + missing_binding_debug(bs@[i as int]));
                assert(out@ =~= start + missing_items(bs@.take(i + 1)));
            }
        }
        i = i + 1;
    }
    assert(bs@.take(n as int) =~= bs@);
}

} // verus!
