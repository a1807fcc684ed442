use vstd::prelude::*;

use vstd::string::StringExecFns;

verus! {

/// The pipeline stage a shader source is compiled for.
#[derive(Clone, Copy, Debug, PartialEq, Eq, Structural)]
pub enum ShaderType {
    /// A vertex stage.
    Vertex,
    /// A fragment stage.
    Fragment,
}

impl ShaderType {
    /// Whether a pipeline built for this shader carries a fragment stage;
    /// a vertex-only shader has none.
    pub fn has_fragment_stage(&self) -> (r: bool)
        ensures
            r == (self is Fragment),
    {
        match self {
            ShaderType::Fragment => true,
            ShaderType::Vertex => false,
        }
    }

    /// The entry point the pipeline binds for this stage kind.
    pub fn entry_point(&self) -> (r: &'static str)
        ensures
            r@ == if self is Fragment {
                "fs_main"@
            } else {
                "vs_main"@
            },
    {
        match self {
            ShaderType::Fragment => "fs_main",
            ShaderType::Vertex => "vs_main",
        }
    }
}

/// The label a named GPU object is created under: the shader's name in
/// backquotes followed by the kind of object.
pub fn shader_label(name: &str, kind: &str) -> (r: String)
    ensures
        r@ == "`"@ + name@ + "` "@ + kind@,
{
    let mut out = String::from_str("`");
    out.append(name);
    out.append("` ");
    out.append(kind);
    proof {
        assert(out@ =~= "`"@ + name@ + "` "@ + kind@);
    }
    out
}

} // verus!
