//! What is on disk for a model: the weight formats present, its size, junk
//! files, and the issues those make.

use vstd::prelude::*;
use crate::manifest::Quant;
use crate::npz::{find_chars, find_sub, starts_with};
use crate::text::{append_decimal_u64, append_str, owned, spec_decimal, str_eq, to_chars};

verus! {

/// The kind of a model file, by its lower-cased name and extension.
#[derive(Clone, Copy, Debug, PartialEq, Eq, Structural)]
pub enum FileKind {
    Safetensors,
    Onnx,
    Gguf,
    Ggml,
    Pytorch,
    Other,
}

/// Safetensors unless it is an index, ONNX, GGUF, GGML (`.bin` named
/// `ggml...`), PyTorch (`.pt`, `.pth`), or something else.
pub open spec fn spec_file_kind(name: Seq<char>, ext: Seq<char>) -> FileKind {
    if ext == "safetensors"@ && find_sub(name, "index"@) is None {
        FileKind::Safetensors
    } else if ext == "onnx"@ {
        FileKind::Onnx
    } else if ext == "gguf"@ {
        FileKind::Gguf
    } else if ext == "bin"@ && starts_with(name, "ggml"@) {
        FileKind::Ggml
    } else if ext == "pt"@ || ext == "pth"@ {
        FileKind::Pytorch
    } else {
        FileKind::Other
    }
}

/// The kind of a model file, by its lower-cased name and extension.
pub fn file_kind(name: &str, ext: &str) -> (r: FileKind)
    ensures
        r == spec_file_kind(name@, ext@),
{
    let n = to_chars(name);
    if str_eq(ext, "safetensors") && find_chars(&n, &to_chars("index")).is_none() {
        FileKind::Safetensors
    } else if str_eq(ext, "onnx") {
        FileKind::Onnx
    } else if str_eq(ext, "gguf") {
        FileKind::Gguf
    } else if str_eq(ext, "bin") && crate::text::chars_start_with(&n, &to_chars("ggml")) {
        FileKind::Ggml
    } else if str_eq(ext, "pt") || str_eq(ext, "pth") {
        FileKind::Pytorch
    } else {
        FileKind::Other
    }
}

/// A directory that holds only junk.
pub open spec fn junk_dir(c: Seq<char>) -> bool {
    c == ".huggingface"@ || c == ".cache"@ || c == "__pycache__"@ || c == ".git"@
}

/// A file that is junk.
pub open spec fn junk_file(n: Seq<char>) -> bool {
    n == ".gitattributes"@ || n == "README.md"@ || n == "LICENSE"@ || n == "LICENSE.md"@ || n == "USE_POLICY.md"@
        || n == "NOTICE"@
}

/// A file is junk when a component of its path is a junk directory or its
/// name is a junk file name.
pub fn is_junk(components: &Vec<String>, name: &str) -> (r: bool)
    ensures
        r == ((exists|i: int| 0 <= i < components@.len() && junk_dir(#[trigger] components@[i]@)) || junk_file(name@)),
{
    let mut i: usize = 0;
    while i < components.len()
        invariant
            i <= components@.len(),
            forall|j: int| 0 <= j < i ==> !junk_dir(#[trigger] components@[j]@),
        decreases components@.len() - i,
    {
        let c = components[i].as_str();
        if str_eq(c, ".huggingface") || str_eq(c, ".cache") || str_eq(c, "__pycache__") || str_eq(c, ".git") {
            proof {
                assert(junk_dir(components@[i as int]@));
            }
            return true;
        }
        i = i + 1;
    }
    str_eq(name, ".gitattributes") || str_eq(name, "README.md") || str_eq(name, "LICENSE") || str_eq(name, "LICENSE.md")
        || str_eq(name, "USE_POLICY.md") || str_eq(name, "NOTICE")
}

/// Status of a model on disk.
pub struct ModelStatus {
    pub exists: bool,
    pub size_bytes: u64,
    pub has_safetensors: bool,
    pub has_onnx: bool,
    pub has_gguf: bool,
    pub has_ggml: bool,
    pub has_pytorch: bool,
    /// The first shard an index names that is missing, as a message.
    pub missing_shards: Option<String>,
    pub junk_bytes: u64,
    /// The quantization the manifest targets for the model.
    pub target_quant: Quant,
}

/// The text of an optional message.
pub open spec fn opt_text(o: Option<Seq<char>>) -> Seq<Seq<char>> {
    match o {
        Some(t) => seq![t],
        None => Seq::empty(),
    }
}

/// The names of the formats present among safetensors, ONNX, GGUF and
/// PyTorch, in that order.
pub open spec fn present_formats(st: ModelStatus) -> Seq<Seq<char>> {
    (if st.has_safetensors { seq!["safetensors"@] } else { Seq::empty() }) + (if st.has_onnx {
        seq!["onnx"@]
    } else {
        Seq::empty()
    }) + (if st.has_gguf { seq!["gguf"@] } else { Seq::empty() }) + (if st.has_pytorch {
        seq!["pytorch"@]
    } else {
        Seq::empty()
    })
}

/// The names joined by `+`.
pub open spec fn join_plus(s: Seq<Seq<char>>) -> Seq<char>
    decreases s.len(),
{
    if s.len() == 0 {
        Seq::empty()
    } else if s.len() == 1 {
        s[0]
    } else {
        join_plus(s.drop_last()) + "+"@ + s.last()
    }
}

/// The issues of a model: `MISSING` alone when it is absent; else, in
/// order, `INCOMPLETE: ...` for a missing shard, `DUPES: ...` when more
/// than one weight format is present and the target is not native, the
/// bloat message `bloat` when there is one, and `JUNK: ...M` for more than
/// a million bytes of junk.
pub open spec fn spec_issues(st: ModelStatus, bloat: Option<Seq<char>>) -> Seq<Seq<char>> {
    if !st.exists {
        seq!["MISSING"@]
    } else {
        opt_text(incomplete_msg(st)) + opt_text(
            if present_formats(st).len() > 1 && st.target_quant != Quant::Native {
                Some("DUPES: "@ + join_plus(present_formats(st)))
            } else {
                None
            },
        ) + opt_text(bloat) + opt_text(
            if st.junk_bytes > 1_000_000 {
                Some("JUNK: "@ + spec_decimal((st.junk_bytes / 1_000_000) as nat) + "M"@)
            } else {
                None
            },
        )
    }
}

/// The text of an optional string.
pub open spec fn opt_view(o: Option<String>) -> Option<Seq<char>> {
    match o {
        Some(b) => Some(b@),
        None => None,
    }
}

/// The message for a missing shard.
pub open spec fn incomplete_msg(st: ModelStatus) -> Option<Seq<char>> {
    match st.missing_shards {
        Some(s) => Some("INCOMPLETE: "@ + s@),
        None => None,
    }
}

/// The texts of the strings.
pub open spec fn views(v: Seq<String>) -> Seq<Seq<char>> {
    v.map_values(|s: String| s@)
}

proof fn lemma_views_push(v: Seq<String>, s: String)
    ensures
        views(v.push(s)) == views(v).push(s@),
{
    assert(views(v.push(s)) =~= views(v).push(s@));
}

impl ModelStatus {
    /// The status of a model whose directory is absent.
    pub fn missing(target_quant: Quant) -> (r: Self)
        ensures
            !r.exists,
            r.size_bytes == 0 && r.junk_bytes == 0,
            !r.has_safetensors && !r.has_onnx && !r.has_gguf && !r.has_ggml && !r.has_pytorch,
            r.missing_shards is None,
            r.target_quant == target_quant,
    {
        ModelStatus {
            exists: false,
            size_bytes: 0,
            has_safetensors: false,
            has_onnx: false,
            has_gguf: false,
            has_ggml: false,
            has_pytorch: false,
            missing_shards: None,
            junk_bytes: 0,
            target_quant,
        }
    }

    /// The status of a present model before its files are counted.
    pub fn found(target_quant: Quant) -> (r: Self)
        ensures
            r.exists,
            r.size_bytes == 0 && r.junk_bytes == 0,
            !r.has_safetensors && !r.has_onnx && !r.has_gguf && !r.has_ggml && !r.has_pytorch,
            r.missing_shards is None,
            r.target_quant == target_quant,
    {
        ModelStatus {
            exists: true,
            size_bytes: 0,
            has_safetensors: false,
            has_onnx: false,
            has_gguf: false,
            has_ggml: false,
            has_pytorch: false,
            missing_shards: None,
            junk_bytes: 0,
            target_quant,
        }
    }

    /// Count one file: its size, its kind (from the lower-cased name and
    /// extension), and whether it is junk.
    pub fn add_file(&mut self, size: u64, name: &str, ext: &str, junk: bool)
        requires
            old(self).size_bytes + size <= u64::MAX,
            junk ==> old(self).junk_bytes + size <= u64::MAX,
        ensures
            final(self).exists == old(self).exists,
            final(self).size_bytes == old(self).size_bytes + size,
            final(self).junk_bytes == old(self).junk_bytes + if junk { size as int } else { 0 },
            final(self).has_safetensors == (old(self).has_safetensors || spec_file_kind(name@, ext@)
                == FileKind::Safetensors),
            final(self).has_onnx == (old(self).has_onnx || spec_file_kind(name@, ext@) == FileKind::Onnx),
            final(self).has_gguf == (old(self).has_gguf || spec_file_kind(name@, ext@) == FileKind::Gguf),
            final(self).has_ggml == (old(self).has_ggml || spec_file_kind(name@, ext@) == FileKind::Ggml),
            final(self).has_pytorch == (old(self).has_pytorch || spec_file_kind(name@, ext@) == FileKind::Pytorch),
            final(self).missing_shards == old(self).missing_shards,
            final(self).target_quant == old(self).target_quant,
    {
        self.size_bytes = self.size_bytes + size;
        match file_kind(name, ext) {
            FileKind::Safetensors => self.has_safetensors = true,
            FileKind::Onnx => self.has_onnx = true,
            FileKind::Gguf => self.has_gguf = true,
            FileKind::Ggml => self.has_ggml = true,
            FileKind::Pytorch => self.has_pytorch = true,
            FileKind::Other => {},
        }
        if junk {
            self.junk_bytes = self.junk_bytes + size;
        }
    }

    /// The issues of the model; `bloat` is the bloat message, when the size
    /// on disk exceeds twice the expected size.
    pub fn issues(&self, bloat: Option<String>) -> (r: Vec<String>)
        ensures
            views(r@) == spec_issues(*self, opt_view(bloat)),
    {
        let ghost bv = opt_view(bloat);
        let mut out: Vec<String> = Vec::new();
        if !self.exists {
            out.push(owned("MISSING"));
            proof {
                assert(views(out@) =~= seq!["MISSING"@]);
            }
            return out;
        }
        let ghost st = *self;
        let ghost incomplete = incomplete_msg(st);
        if let Some(shard) = &self.missing_shards {
            let mut m = owned("INCOMPLETE: ");
            append_str(&mut m, shard.as_str());
            out.push(m);
        }
        proof {
            assert(views(out@) =~= opt_text(incomplete));
        }
        let ghost a = views(out@);
        let mut fmts: Vec<&str> = Vec::new();
        if self.has_safetensors {
            fmts.push("safetensors");
        }
        if self.has_onnx {
            fmts.push("onnx");
        }
        if self.has_gguf {
            fmts.push("gguf");
        }
        if self.has_pytorch {
            fmts.push("pytorch");
        }
        proof {
            assert(fmts@.map_values(|s: &str| s@) =~= present_formats(st));
        }
        let ghost dupes = if present_formats(st).len() > 1 && st.target_quant != Quant::Native {
            Some("DUPES: "@ + join_plus(present_formats(st)))
        } else {
            None::<Seq<char>>
        };
        let native = match self.target_quant {
            Quant::Native => true,
            _ => false,
        };
        if fmts.len() > 1 && !native {
            let mut m = owned("DUPES: ");
            let mut i: usize = 0;
            let ghost head = m@;
            proof {
                assert(fmts@.map_values(|s: &str| s@).take(0) =~= Seq::<Seq<char>>::empty());
            }
            while i < fmts.len()
                invariant
                    i <= fmts@.len(),
                    m@ == head + join_plus(fmts@.map_values(|s: &str| s@).take(i as int)),
                decreases fmts@.len() - i,
            {
                let ghost fv = fmts@.map_values(|s: &str| s@);
                if i > 0 {
                    append_str(&mut m, "+");
                }
                append_str(&mut m, fmts[i]);
                proof {
                    assert(fv.take(i + 1).drop_last() =~= fv.take(i as int));
                    assert(fv.take(i + 1).last() == fmts@[i as int]@);
                    if i == 0 {
                        assert(fv.take(1)[0] == fmts@[0]@);
                    }
                    assert(m@ =~= head + join_plus(fv.take(i + 1)));
                }
                i = i + 1;
            }
            proof {
                assert(fmts@.map_values(|s: &str| s@).take(i as int) =~= present_formats(st));
                lemma_views_push(out@, m);
            }
            out.push(m);
        }
        proof {
            assert(views(out@) =~= a + opt_text(dupes));
        }
        let ghost b2 = views(out@);
        match bloat {
            Some(b) => {
                proof {
                    lemma_views_push(out@, b);
                }
                out.push(b);
            },
            None => {},
        }
        proof {
            assert(views(out@) =~= b2 + opt_text(bv));
        }
        let ghost c = views(out@);
        let ghost junk = if st.junk_bytes > 1_000_000 {
            Some("JUNK: "@ + spec_decimal((st.junk_bytes / 1_000_000) as nat) + "M"@)
        } else {
            None::<Seq<char>>
        };
        if self.junk_bytes > 1_000_000 {
            let mut m = owned("JUNK: ");
            append_decimal_u64(&mut m, self.junk_bytes / 1_000_000);
            append_str(&mut m, "M");
            proof {
                lemma_views_push(out@, m);
            }
            out.push(m);
        }
        proof {
            assert(views(out@) =~= c + opt_text(junk));
            assert(views(out@) =~= opt_text(incomplete) + opt_text(dupes) + opt_text(bv) + opt_text(junk));
        }
        out
    }

    /// The model is present and has no issues.
    pub fn is_ok(&self, bloat: Option<String>) -> (r: bool)
        ensures
            r == (self.exists && spec_issues(*self, opt_view(bloat)).len() == 0),
    {
        let is = self.issues(bloat);
        self.exists && is.len() == 0
    }
}

} // verus!
