//! The `.model` file: TOML frontmatter listing the sections and the size
//! of the weight blob, then six named text sections (`~~~card`, ...), then
//! `~~~weights` and the raw weights.

use vstd::prelude::*;
use crate::text::{append_decimal, append_str, spec_decimal, to_chars};

verus! {

/// The frontmatter entry of a text section.
pub open spec fn files_entry(section: Seq<char>, format: Seq<char>) -> Seq<char> {
    "[[files]]\nname = \""@ + section + "\"\nformat = \""@ + format + "\"\n\n"@
}

/// A text section: its marker line, then its body, ending with a newline.
pub open spec fn text_section(marker: Seq<char>, body: Seq<char>) -> Seq<char> {
    marker + "\n"@ + body + (if body.len() > 0 && body.last() == '\n' {
        Seq::<char>::empty()
    } else {
        "\n"@
    })
}

/// The frontmatter: the model's name, the six text sections with their
/// formats, and the weight blob with its size.
pub open spec fn frontmatter(name: Seq<char>, program_format: Seq<char>, weights_len: nat) -> Seq<char> {
    "[cyb]\ntypes = [\"model\"]\nname = \""@ + name + "\"\n\n"@ + files_entry("card"@, "md"@) + files_entry(
        "config"@,
        "toml"@,
    ) + files_entry("program"@, program_format) + files_entry("tensors"@, "toml"@) + files_entry(
        "vocab"@,
        "toml"@,
    ) + files_entry("eval"@, "toml"@) + "[[files]]\nname = \"weights\"\nformat = \"tensors\"\nsize = "@
        + spec_decimal(weights_len) + "\n"@
}

/// The text part of a `.model` file, up to and including the `~~~weights`
/// line; the raw weights follow it.
pub open spec fn model_text(
    name: Seq<char>,
    card: Seq<char>,
    config: Seq<char>,
    program: Seq<char>,
    program_format: Seq<char>,
    tensors: Seq<char>,
    vocab: Seq<char>,
    eval: Seq<char>,
    weights_len: nat,
) -> Seq<char> {
    frontmatter(name, program_format, weights_len) + text_section("~~~card"@, card) + text_section(
        "~~~config"@,
        config,
    ) + text_section("~~~program"@, program) + text_section("~~~tensors"@, tensors) + text_section(
        "~~~vocab"@,
        vocab,
    ) + text_section("~~~eval"@, eval) + "~~~weights\n"@
}

fn append_files_entry(s: &mut String, section: &str, format: &str)
    ensures
        final(s)@ == old(s)@ + files_entry(section@, format@),
{
    let ghost s0 = s@;
    append_str(s, "[[files]]\nname = \"");
    append_str(s, section);
    append_str(s, "\"\nformat = \"");
    append_str(s, format);
    append_str(s, "\"\n\n");
    proof {
        assert(s@ =~= s0 + files_entry(section@, format@));
    }
}

fn append_section(s: &mut String, marker: &str, body: &str)
    ensures
        final(s)@ == old(s)@ + text_section(marker@, body@),
{
    let ghost s0 = s@;
    append_str(s, marker);
    append_str(s, "\n");
    append_str(s, body);
    let cs = to_chars(body);
    let n = cs.len();
    if n > 0 && cs[n - 1] == '\n' {
        proof {
            assert(s@ =~= s0 + text_section(marker@, body@));
        }
    } else {
        append_str(s, "\n");
        proof {
            assert(s@ =~= s0 + text_section(marker@, body@));
        }
    }
}

/// The text part of a `.model` file for the given sections and a weight
/// blob of `weights_len` bytes; the raw weights follow it in the file.
pub fn model_file_text(
    name: &str,
    card: &str,
    config: &str,
    program: &str,
    program_format: &str,
    tensors_toml: &str,
    vocab: &str,
    eval: &str,
    weights_len: usize,
) -> (r: String)
    ensures
        r@ == model_text(
            name@,
            card@,
            config@,
            program@,
            program_format@,
            tensors_toml@,
            vocab@,
            eval@,
            weights_len as nat,
        ),
{
    let mut s = String::new();
    append_str(&mut s, "[cyb]\ntypes = [\"model\"]\nname = \"");
    append_str(&mut s, name);
    append_str(&mut s, "\"\n\n");
    append_files_entry(&mut s, "card", "md");
    append_files_entry(&mut s, "config", "toml");
    append_files_entry(&mut s, "program", program_format);
    append_files_entry(&mut s, "tensors", "toml");
    append_files_entry(&mut s, "vocab", "toml");
    append_files_entry(&mut s, "eval", "toml");
    append_str(&mut s, "[[files]]\nname = \"weights\"\nformat = \"tensors\"\nsize = ");
    append_decimal(&mut s, weights_len);
    append_str(&mut s, "\n");
    let ghost front = s@;
    proof {
        assert(front =~= frontmatter(name@, program_format@, weights_len as nat));
    }
    append_section(&mut s, "~~~card", card);
    append_section(&mut s, "~~~config", config);
    append_section(&mut s, "~~~program", program);
    append_section(&mut s, "~~~tensors", tensors_toml);
    append_section(&mut s, "~~~vocab", vocab);
    append_section(&mut s, "~~~eval", eval);
    append_str(&mut s, "~~~weights\n");
    proof {
        assert(s@ =~= model_text(
            name@,
            card@,
            config@,
            program@,
            program_format@,
            tensors_toml@,
            vocab@,
            eval@,
            weights_len as nat,
        ));
    }
    s
}

} // verus!
