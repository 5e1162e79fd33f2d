//! Git-style text describing file operations, for people to read.

use crate::text::str_eq;
use vstd::prelude::*;

verus! {

/// Decimal digit `d` as text.
pub open spec fn digit_text(d: nat) -> Seq<char> {
    if d == 0 {
        "0"@
    } else if d == 1 {
        "1"@
    } else if d == 2 {
        "2"@
    } else if d == 3 {
        "3"@
    } else if d == 4 {
        "4"@
    } else if d == 5 {
        "5"@
    } else if d == 6 {
        "6"@
    } else if d == 7 {
        "7"@
    } else if d == 8 {
        "8"@
    } else {
        "9"@
    }
}

/// Decimal text of a number, without leading zeros.
pub open spec fn decimal(n: nat) -> Seq<char>
    decreases n,
{
    if n < 10 {
        digit_text(n)
    } else {
        decimal(n / 10) + digit_text(n % 10)
    }
}

fn digit_str(d: usize) -> (r: &'static str)
    requires
        d < 10,
    ensures
        r@ == digit_text(d as nat),
{
    if d == 0 {
        "0"
    } else if d == 1 {
        "1"
    } else if d == 2 {
        "2"
    } else if d == 3 {
        "3"
    } else if d == 4 {
        "4"
    } else if d == 5 {
        "5"
    } else if d == 6 {
        "6"
    } else if d == 7 {
        "7"
    } else if d == 8 {
        "8"
    } else {
        "9"
    }
}

/// Appends the decimal text of `n`.
pub fn push_decimal(out: &mut String, n: usize)
    ensures
        final(out)@ == old(out)@ + decimal(n as nat),
    decreases n,
{
    if n >= 10 {
        push_decimal(out, n / 10);
        out.append(digit_str(n % 10));
        assert(final(out)@ =~= old(out)@ + decimal(n as nat));
    } else {
        out.append(digit_str(n));
    }
}

/// The lines of a source file and of its destination, to show side by side.
pub struct FileLines {
    pub src: Vec<String>,
    pub dst: Vec<String>,
}

/// The text of each line.
pub open spec fn lines_text(v: Seq<String>) -> Seq<Seq<char>> {
    v.map_values(|s: String| s@)
}

/// Line `i` of a side-by-side hunk: kept when both sides agree, else removed
/// and/or added.
pub open spec fn hunk_line(src: Seq<Seq<char>>, dst: Seq<Seq<char>>, i: int) -> Seq<char> {
    if i < src.len() && i < dst.len() {
        if src[i] == dst[i] {
            " "@ + src[i] + "\n"@
        } else {
            "-"@ + src[i] + "\n"@ + "+"@ + dst[i] + "\n"@
        }
    } else if i < src.len() {
        "-"@ + src[i] + "\n"@
    } else {
        "+"@ + dst[i] + "\n"@
    }
}

/// The first `n` hunk lines.
pub open spec fn hunk_lines(src: Seq<Seq<char>>, dst: Seq<Seq<char>>, n: nat) -> Seq<char>
    decreases n,
{
    if n == 0 {
        Seq::empty()
    } else {
        hunk_lines(src, dst, (n - 1) as nat) + hunk_line(src, dst, n - 1)
    }
}

/// A single hunk comparing the lines of two files, line by line.
pub open spec fn patch_text(src: Seq<Seq<char>>, dst: Seq<Seq<char>>) -> Seq<char> {
    let n = if src.len() >= dst.len() {
        src.len()
    } else {
        dst.len()
    };
    "@@ -1,"@ + decimal(src.len()) + " +1,"@ + decimal(dst.len()) + " @@\n"@ + hunk_lines(
        src,
        dst,
        n,
    ) + "\n"@
}

/// The hunk for optional file contents; nothing without them.
pub open spec fn optional_patch(contents: Option<FileLines>) -> Seq<char> {
    match contents {
        Some(c) => patch_text(lines_text(c.src@), lines_text(c.dst@)),
        None => Seq::empty(),
    }
}

/// Text of a copy from `src` to `dst`.
pub open spec fn copy_diff_text(
    src: Seq<char>,
    dst: Seq<char>,
    new_file: bool,
    conflict: Option<Seq<char>>,
    contents: Option<FileLines>,
) -> Seq<char> {
    "diff --git a/"@ + src + " b/"@ + dst + "\n"@ + (if new_file {
        "new file mode 100644\n"@
    } else if conflict is Some {
        "modified (conflict strategy: "@ + conflict->0 + ")\n"@
    } else {
        "modified\n"@
    }) + "--- a/"@ + src + "\n"@ + "+++ b/"@ + dst + "\n\n"@ + optional_patch(contents)
}

/// Text of a rename from `src` to `dst`.
pub open spec fn rename_diff_text(src: Seq<char>, dst: Seq<char>, contents: Option<FileLines>) -> Seq<
    char,
> {
    "diff --git a/"@ + src + " b/"@ + dst + "\n"@ + "rename from "@ + src + "\n"@ + "rename to   "@
        + dst + "\n\n"@ + optional_patch(contents)
}

/// Text of the removal of an empty directory.
pub open spec fn remove_dir_diff_text(dir: Seq<char>) -> Seq<char> {
    "diff --git a/"@ + dir + " b/"@ + dir + "\n"@ + "deleted dir mode 040000\n"@ + "--- a/"@ + dir
        + "\n"@ + "+++ /dev/null\n\n"@
}

/// Appends the hunk comparing two files' lines.
fn push_patch(out: &mut String, c: &FileLines)
    ensures
        final(out)@ == old(out)@ + patch_text(lines_text(c.src@), lines_text(c.dst@)),
{
    let ghost s = lines_text(c.src@);
    let ghost d = lines_text(c.dst@);
    let ns = c.src.len();
    let nd = c.dst.len();
    out.append("@@ -1,");
    push_decimal(out, ns);
    out.append(" +1,");
    push_decimal(out, nd);
    out.append(" @@\n");
    let ghost head = out@;
    let n: usize = if ns >= nd {
        ns
    } else {
        nd
    };
    let mut i: usize = 0;
    while i < n
        invariant
            i <= n,
            n == if s.len() >= d.len() {
                s.len()
            } else {
                d.len()
            },
            ns == s.len(),
            nd == d.len(),
            s == lines_text(c.src@),
            d == lines_text(c.dst@),
            out@ == head + hunk_lines(s, d, i as nat),
        decreases n - i,
    {
        let ghost before = out@;
        if i < ns && i < nd {
            let a = c.src[i].as_str();
            let b = c.dst[i].as_str();
            if str_eq(a, b) {
                out.append(" ");
                out.append(a);
                out.append("\n");
            } else {
                out.append("-");
                out.append(a);
                out.append("\n");
                out.append("+");
                out.append(b);
                out.append("\n");
            }
        } else if i < ns {
            out.append("-");
            out.append(c.src[i].as_str());
            out.append("\n");
        } else {
            out.append("+");
            out.append(c.dst[i].as_str());
            out.append("\n");
        }
        assert(out@ =~= before + hunk_line(s, d, i as int));
        i = i + 1;
    }
    out.append("\n");
    assert(out@ =~= old(out)@ + patch_text(s, d));
}

/// Git-style text of a copy from `src` to `dst`: a new file, or a modified
/// one (with the conflict strategy when given), and, when file contents are
/// given, a hunk comparing their lines.
pub fn format_copy_diff(
    src: &str,
    dst: &str,
    new_file: bool,
    conflict: Option<&str>,
    contents: Option<&FileLines>,
) -> (r: String)
    ensures
        r@ == copy_diff_text(
            src@,
            dst@,
            new_file,
            match conflict {
                Some(c) => Some(c@),
                None => None,
            },
            match contents {
                Some(c) => Some(*c),
                None => None,
            },
        ),
{
    let mut out = String::new();
    out.append("diff --git a/");
    out.append(src);
    out.append(" b/");
    out.append(dst);
    out.append("\n");
    if new_file {
        out.append("new file mode 100644\n");
    } else {
        match conflict {
            Some(c) => {
                out.append("modified (conflict strategy: ");
                out.append(c);
                out.append(")\n");
            },
            None => {
                out.append("modified\n");
            },
        }
    }
    out.append("--- a/");
    out.append(src);
    out.append("\n");
    out.append("+++ b/");
    out.append(dst);
    out.append("\n\n");
    let ghost before = out@;
    match contents {
        Some(c) => push_patch(&mut out, c),
        None => {},
    }
    proof {
        let cv = match contents {
            Some(c) => Some(*c),
            None => None::<FileLines>,
        };
        assert(out@ == before + optional_patch(cv));
    }
    assert(out@ =~= copy_diff_text(
        src@,
        dst@,
        new_file,
        match conflict {
            Some(c) => Some(c@),
            None => None,
        },
        match contents {
            Some(c) => Some(*c),
            None => None,
        },
    ));
    out
}

/// Git-style text of a rename from `src` to `dst`, with a hunk comparing the
/// files' lines when their contents are given.
pub fn format_rename_diff(src: &str, dst: &str, contents: Option<&FileLines>) -> (r: String)
    ensures
        r@ == rename_diff_text(
            src@,
            dst@,
            match contents {
                Some(c) => Some(*c),
                None => None,
            },
        ),
{
    let mut out = String::new();
    out.append("diff --git a/");
    out.append(src);
    out.append(" b/");
    out.append(dst);
    out.append("\n");
    out.append("rename from ");
    out.append(src);
    out.append("\n");
    out.append("rename to   ");
    out.append(dst);
    out.append("\n\n");
    let ghost before = out@;
    match contents {
        Some(c) => push_patch(&mut out, c),
        None => {},
    }
    proof {
        let cv = match contents {
            Some(c) => Some(*c),
            None => None::<FileLines>,
        };
        assert(out@ == before + optional_patch(cv));
    }
    assert(out@ =~= rename_diff_text(
        src@,
        dst@,
        match contents {
            Some(c) => Some(*c),
            None => None,
        },
    ));
    out
}

/// Git-style text of the removal of an empty directory.
pub fn format_remove_dir_diff(dir: &str) -> (r: String)
    ensures
        r@ == remove_dir_diff_text(dir@),
{
    let mut out = String::new();
    out.append("diff --git a/");
    out.append(dir);
    out.append(" b/");
    out.append(dir);
    out.append("\n");
    out.append("deleted dir mode 040000\n");
    out.append("--- a/");
    out.append(dir);
    out.append("\n");
    out.append("+++ /dev/null\n\n");
    assert(out@ =~= remove_dir_diff_text(dir@));
    out
}

} // verus!
