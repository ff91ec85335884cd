//! Which vindexes the hybrid model loads from.
use vstd::prelude::*;
use vstd::string::*;
use crate::attention::dsv4_vindex_model::VindexConfig;
use crate::text::{copy_text, same_text};

verus! {

/// Why a vindex could not be loaded. Directories are kept as they are written.
#[derive(Debug)]
pub enum VindexLoadError {
    Vindex(String),
    Model(String),
    UnexpectedArch(String, String),
    MissingTensor { dir: String, key: String },
    Io(String),
}

/// A family that the hybrid model loads from.
pub open spec fn is_hybrid_family(family: Seq<char>) -> bool {
    family == "qwen35"@ || family == "qwen35moe"@
}

impl VindexLoadError {
    /// The text of the message; `dir_quoted` is how the directory is written in
    /// it.
    pub open spec fn message_text(self, dir_quoted: Seq<char>) -> Seq<char> {
        match self {
            VindexLoadError::Vindex(t) => "vindex error: "@ + t@,
            VindexLoadError::Model(t) => "model error: "@ + t@,
            VindexLoadError::UnexpectedArch(_, arch) => "vindex "@ + dir_quoted
                + " reports arch `"@ + arch@
                + "`, but only `qwen35` and `qwen35moe` reach this loader"@,
            VindexLoadError::MissingTensor { dir: _, key } => "tensor `"@ + key@
                + "` not found in vindex "@ + dir_quoted
                + " — was the vindex built with PR #147+ and the router-write fixes from PRs #152/#155?"@,
            VindexLoadError::Io(t) => "io: "@ + t@,
        }
    }

    /// The message for a reader; `dir_quoted` is how the directory is written in
    /// it.
    pub fn message(&self, dir_quoted: &str) -> (t: String)
        ensures
            t@ == self.message_text(dir_quoted@),
    {
        match self {
            VindexLoadError::Vindex(e) => {
                let mut t: String = String::from_str("vindex error: ");
                t.append(e.as_str());
                t
            },
            VindexLoadError::Model(e) => {
                let mut t: String = String::from_str("model error: ");
                t.append(e.as_str());
                t
            },
            VindexLoadError::UnexpectedArch(_, arch) => {
                let mut t: String = String::from_str("vindex ");
                t.append(dir_quoted);
                t.append(" reports arch `");
                t.append(arch.as_str());
                t.append("`, but only `qwen35` and `qwen35moe` reach this loader");
                t
            },
            VindexLoadError::MissingTensor { dir: _, key } => {
                let mut t: String = String::from_str("tensor `");
                t.append(key.as_str());
                t.append("` not found in vindex ");
                t.append(dir_quoted);
                t.append(
                    " — was the vindex built with PR #147+ and the router-write fixes from PRs #152/#155?",
                );
                t
            },
            VindexLoadError::Io(e) => {
                let mut t: String = String::from_str("io: ");
                t.append(e.as_str());
                t
            },
        }
    }
}

/// Refuses a vindex of another family.
pub fn check_hybrid_family(cfg: &VindexConfig, dir: &str) -> (r: Result<(), VindexLoadError>)
    ensures
        if is_hybrid_family(cfg.family()) {
            r is Ok
        } else {
            r matches Err(VindexLoadError::UnexpectedArch(d, arch)) && d@ == dir@ && arch@
                == cfg.family()
        },
{
    match &cfg.model_config {
        Some(c) => {
            if same_text(&c.model_type, "qwen35") || same_text(&c.model_type, "qwen35moe") {
                Ok(())
            } else {
                Err(
                    VindexLoadError::UnexpectedArch(
                        copy_text(dir),
                        copy_text(c.model_type.as_str()),
                    ),
                )
            }
        },
        None => {
            proof {
                reveal_strlit("qwen35");
                reveal_strlit("qwen35moe");
                assert("qwen35"@.len() == 6 && "qwen35moe"@.len() == 9);
            }
            Err(VindexLoadError::UnexpectedArch(copy_text(dir), String::new()))
        },
    }
}

/// Which families are hybrid: the dense one and the one with experts, by their names.
pub proof fn law_hybrid_families(family: Seq<char>)
    ensures
        is_hybrid_family(family) <==> family == "qwen35"@ || family == "qwen35moe"@,
{
}

/// What the errors of loading say.
pub proof fn law_vindex_error_texts(e: VindexLoadError, dir: Seq<char>)
    ensures
        e matches VindexLoadError::Vindex(t) ==> e.message_text(dir) == "vindex error: "@ + t@,
        e matches VindexLoadError::Model(t) ==> e.message_text(dir) == "model error: "@ + t@,
        e matches VindexLoadError::Io(t) ==> e.message_text(dir) == "io: "@ + t@,
        e matches VindexLoadError::UnexpectedArch(d, arch) ==> e.message_text(dir) == "vindex "@
            + dir + " reports arch `"@ + arch@
            + "`, but only `qwen35` and `qwen35moe` reach this loader"@,
        e matches VindexLoadError::MissingTensor { dir: d, key } ==> e.message_text(dir)
            == "tensor `"@ + key@ + "` not found in vindex "@ + dir
            + " — was the vindex built with PR #147+ and the router-write fixes from PRs #152/#155?"@,
{
}

} // verus!
