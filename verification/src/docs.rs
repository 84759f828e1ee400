//! Splitting documentation text into a title and a description.
//!
//! The documentation of a type arrives as ordered plain text lines.  The
//! lines are joined with newline separators and the joined text is split at
//! the first blank line: text before it becomes the title, text after it
//! the description.  With no blank line the whole text is the description
//! and there is no title; empty documentation yields neither.

use vstd::prelude::*;

verus! {

/// The newline separator put between documentation lines.
pub open spec fn nl() -> Seq<char> {
    seq!['\n']
}

/// The models of a sequence of text lines.
pub open spec fn lines_view(ls: Seq<String>) -> Seq<Seq<char>> {
    ls.map(|i: int, l: String| l@)
}

/// The joined documentation text: the lines, newline-separated.
pub open spec fn doc_text(lines: Seq<Seq<char>>) -> Seq<char>
    decreases lines.len(),
{
    if lines.len() == 0 {
        Seq::empty()
    } else if lines.len() == 1 {
        lines[0]
    } else {
        doc_text(lines.subrange(0, lines.len() - 1)) + nl() + lines[lines.len() - 1]
    }
}

/// Whether a blank-line separator (two adjacent newlines) stands at
/// position `i` of the joined text.
pub open spec fn sep_at(d: Seq<char>, i: int) -> bool {
    0 <= i && i + 2 <= d.len() && d[i] == '\n' && d[i + 1] == '\n'
}

/// The position of the first blank-line separator at or after `i`.
pub open spec fn first_sep_from(d: Seq<char>, i: int) -> Option<int>
    decreases d.len() - i,
{
    if i + 2 > d.len() {
        None
    } else if sep_at(d, i) {
        Some(i)
    } else {
        first_sep_from(d, i + 1)
    }
}

/// The title drawn from documentation lines: the joined text before the
/// first blank line, absent when there is no blank line.
pub open spec fn doc_title(lines: Seq<Seq<char>>) -> Option<Seq<char>> {
    let d = doc_text(lines);
    match first_sep_from(d, 0) {
        Some(i) => Some(d.subrange(0, i)),
        None => None,
    }
}

/// The description drawn from documentation lines: the joined text after
/// the first blank line; the whole text when there is no blank line; absent
/// when the text is empty.
pub open spec fn doc_description(lines: Seq<Seq<char>>) -> Option<Seq<char>> {
    let d = doc_text(lines);
    match first_sep_from(d, 0) {
        Some(i) => Some(d.subrange(i + 2, d.len() as int)),
        None => if d.len() == 0 {
            None
        } else {
            Some(d)
        },
    }
}

/// Where the first separator search lands: on a separator, with none
/// earlier.
proof fn lemma_first_sep(d: Seq<char>, i: int)
    ensures
        match first_sep_from(d, i) {
            Some(j) => i <= j && sep_at(d, j),
            None => forall|k: int| i <= k ==> !sep_at(d, k),
        },
    decreases d.len() - i,
{
    if i + 2 > d.len() {
    } else if sep_at(d, i) {
    } else {
        lemma_first_sep(d, i + 1);
    }
}

/// Joins documentation lines and splits them into title and description.
pub fn split_doc(lines: &Vec<String>) -> (r: (Option<String>, Option<String>))
    ensures
        match r.0 {
            Some(t) => doc_title(lines_view(lines@)) == Some(t@),
            None => doc_title(lines_view(lines@)) is None,
        },
        match r.1 {
            Some(t) => doc_description(lines_view(lines@)) == Some(t@),
            None => doc_description(lines_view(lines@)) is None,
        },
{
    let ghost lv = lines_view(lines@);
    let mut d = String::new();
    let mut j: usize = 0;
    proof {
        reveal_strlit("\n");
    }
    while j < lines.len()
        invariant
            lv == lines_view(lines@),
            lv.len() == lines@.len(),
            forall|k: int| 0 <= k < lines@.len() ==> lv[k] == lines@[k]@,
            j <= lines@.len(),
            d@ == doc_text(lv.subrange(0, j as int)),
            "\n"@ == nl(),
        decreases lines@.len() - j,
    {
        if j > 0 {
            d.append("\n");
        }
        d.append(lines[j].as_str());
        proof {
            let pre = lv.subrange(0, j as int);
            let cur = lv.subrange(0, j + 1 as int);
            assert(cur.subrange(0, cur.len() - 1) =~= pre);
            if j == 0 {
                assert(d@ =~= doc_text(cur));
            }
        }
        j += 1;
    }
    proof {
        assert(lv.subrange(0, lv.len() as int) =~= lv);
    }
    let dlen = d.unicode_len();
    let dstr = d.as_str();
    let mut i: usize = 0;
    let mut found = false;
    while !found && i < dlen && i + 1 < dlen
        invariant
            dlen == dstr@.len(),
            dstr@ == doc_text(lv),
            i <= dlen,
            found ==> sep_at(dstr@, i as int),
            first_sep_from(dstr@, 0) == first_sep_from(dstr@, i as int),
        decreases dlen - i, (if found { 0int } else { 1int }),
    {
        if dstr.get_char(i) == '\n' && dstr.get_char(i + 1) == '\n' {
            found = true;
        } else {
            proof {
                assert(!sep_at(dstr@, i as int));
                assert(first_sep_from(dstr@, i as int) == first_sep_from(dstr@, i + 1 as int));
            }
            i += 1;
        }
    }
    match found {
        true => {
            proof {
                assert(sep_at(dstr@, i as int));
                assert(first_sep_from(dstr@, i as int) == Some(i as int));
                lemma_first_sep(dstr@, 0);
            }
            let title = String::from_str(dstr.substring_char(0, i));
            let desc = String::from_str(dstr.substring_char(i + 2, dlen));
            (Some(title), Some(desc))
        },
        false => {
            proof {
                assert(first_sep_from(dstr@, i as int) is None);
            }
            if dlen == 0 {
                (None, None)
            } else {
                let desc = String::from_str(dstr);
                (None, Some(desc))
            }
        },
    }
}

} // verus!
