//! Rewriting of asset ids in text: each id that was migrated is replaced by
//! the id of the asset that replaces it.

use vstd::prelude::*;
use vstd::string::*;
use crate::asset_id::{is_digit, push_char};
use crate::outcome::IdMapping;

verus! {

/// The shortest run of digits that counts as an asset id in script source.
pub const SCRIPT_ID_DIGITS: usize = 5;

/// The shortest run of digits that counts as an asset id in a content id.
pub const CONTENT_ID_DIGITS: usize = 1;

/// What a run of digits is written as: its replacement if the run is long
/// enough and the mapping has it as a key, else the run itself.
pub open spec fn rewritten(
    run: Seq<char>,
    mapping: Map<Seq<char>, Seq<char>>,
    min_digits: nat,
) -> Seq<char> {
    if run.len() >= min_digits && mapping.contains_key(run) {
        mapping[run]
    } else {
        run
    }
}

/// The state of a left-to-right scan after reading `text`: what has been
/// written, and the run of digits at the end of `text` that is still open.
pub open spec fn scanned(
    text: Seq<char>,
    mapping: Map<Seq<char>, Seq<char>>,
    min_digits: nat,
) -> (Seq<char>, Seq<char>)
    decreases text.len(),
{
    if text.len() == 0 {
        (Seq::empty(), Seq::empty())
    } else {
        let (written, run) = scanned(text.drop_last(), mapping, min_digits);
        if is_digit(text.last()) {
            (written, run.push(text.last()))
        } else {
            (written + rewritten(run, mapping, min_digits).push(text.last()), Seq::empty())
        }
    }
}

/// The text in which every maximal run of ASCII digits that is long enough
/// and is a key of the mapping is replaced by what the mapping holds for
/// it. Everything else stays as it is.
pub open spec fn patched(
    text: Seq<char>,
    mapping: Map<Seq<char>, Seq<char>>,
    min_digits: nat,
) -> Seq<char> {
    let (written, run) = scanned(text, mapping, min_digits);
    written + rewritten(run, mapping, min_digits)
}

fn is_ascii_digit(c: char) -> (digit: bool)
    ensures
        digit == is_digit(c),
{
    c >= '0' && c <= '9'
}

fn flush(out: &mut String, run: String, mapping: &IdMapping, min_digits: usize)
    requires
        mapping.wf(),
    ensures
        final(out)@ == old(out)@ + rewritten(run@, mapping@, min_digits as nat),
{
    if run.as_str().unicode_len() >= min_digits {
        match mapping.get(run.as_str()) {
            Some(replacement) => {
                out.append(replacement.as_str());
                return ;
            },
            None => {},
        }
    }
    out.append(run.as_str());
}

/// Rewrites the asset ids in `text`.
///
/// Every maximal run of ASCII digits with at least `min_digits` digits that
/// is a key of the mapping is replaced by the value of that key; the rest
/// of the text is copied.
pub fn patch_text(text: &str, mapping: &IdMapping, min_digits: usize) -> (out: String)
    requires
        mapping.wf(),
    ensures
        out@ == patched(text@, mapping@, min_digits as nat),
{
    let mut out = String::new();
    let mut run = String::new();
    let ghost all = text@;
    proof {
        assert(all.take(0) =~= Seq::<char>::empty());
    }
    for c in it: text.chars()
        invariant
            it.seq() == all,
            mapping.wf(),
            (out@, run@) == scanned(all.take(it.index() as int), mapping@, min_digits as nat),
    {
        proof {
            assert(all.take(it.index() + 1).drop_last() =~= all.take(it.index() as int));
            assert(all.take(it.index() + 1).last() == c);
        }
        if is_ascii_digit(c) {
            push_char(&mut run, c);
        } else {
            flush(&mut out, run, mapping, min_digits);
            push_char(&mut out, c);
            run = String::new();
        }
    }
    proof {
        assert(all.take(all.len() as int) =~= all);
    }
    flush(&mut out, run, mapping, min_digits);
    out
}

/// With nothing in the mapping, the text stays as it is.
pub proof fn lemma_patch_nothing(text: Seq<char>, min_digits: nat)
    ensures
        patched(text, Map::empty(), min_digits) == text,
    decreases text.len(),
{
    let mapping = Map::<Seq<char>, Seq<char>>::empty();
    lemma_scan_copies(text, mapping, min_digits);
}

/// Where no run of the text is rewritten to something else, the scan
/// copies the text.
pub proof fn lemma_scan_copies(text: Seq<char>, mapping: Map<Seq<char>, Seq<char>>, min_digits: nat)
    requires
        forall|key: Seq<char>| #[trigger] mapping.contains_key(key) ==> mapping[key] == key,
    ensures
        scanned(text, mapping, min_digits).0 + scanned(text, mapping, min_digits).1 == text,
        patched(text, mapping, min_digits) == text,
    decreases text.len(),
{
    if text.len() > 0 {
        lemma_scan_copies(text.drop_last(), mapping, min_digits);
        let (written, run) = scanned(text.drop_last(), mapping, min_digits);
        assert(rewritten(run, mapping, min_digits) == run);
        assert(text =~= text.drop_last().push(text.last()));
        let (w2, r2) = scanned(text, mapping, min_digits);
        assert(w2 + r2 =~= (written + run).push(text.last()));
        assert(rewritten(r2, mapping, min_digits) == r2);
    } else {
        assert(scanned(text, mapping, min_digits).0 + scanned(text, mapping, min_digits).1 =~= text);
    }
}

} // verus!
