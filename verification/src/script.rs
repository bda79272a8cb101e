//! Scripts of a place file and the asset ids that their source mentions.

use vstd::prelude::*;
use crate::asset_id::{parse_id, token_id};

verus! {

/// The pattern of a candidate asset id in script source: a run of five or
/// more digits.
pub const ID_PATTERN: &'static str = r"\d{5,}";

/// The kind of a script, by the class of its instance.
#[derive(Clone, Debug, PartialEq, Eq)]
pub enum ScriptType {
    Script,
    LocalScript,
    ModuleScript,
    /// Any other class, by its name.
    Unknown(String),
}

/// A script of a place file.
#[derive(Clone, Debug)]
pub struct Script {
    /// Position of the script's instance among the instances of the file.
    pub instance: usize,
    /// The source text.
    pub source: String,
    pub script_type: ScriptType,
}

/// Whether two texts are the same.
pub fn same_text(a: &str, b: &str) -> (same: bool)
    ensures
        same == (a@ == b@),
{
    a.to_owned() == b.to_owned()
}

/// Whether a class name is that of one of the three script classes.
pub open spec fn is_script_class(class: Seq<char>) -> bool {
    class == "Script"@ || class == "LocalScript"@ || class == "ModuleScript"@
}

impl ScriptType {
    /// The class name that the script type stands for.
    pub open spec fn class_name(self) -> Seq<char> {
        match self {
            ScriptType::Script => "Script"@,
            ScriptType::LocalScript => "LocalScript"@,
            ScriptType::ModuleScript => "ModuleScript"@,
            ScriptType::Unknown(name) => name@,
        }
    }

    /// The script type of an instance of class `class`.
    ///
    /// The three script classes have a variant each; every other class is
    /// `Unknown` and keeps its name.
    pub fn from_class_name(class: &str) -> (kind: ScriptType)
        ensures
            kind.class_name() == class@,
            kind is Unknown <==> !is_script_class(class@),
    {
        proof {
            lemma_script_classes_differ();
        }
        if same_text(class, "Script") {
            ScriptType::Script
        } else if same_text(class, "LocalScript") {
            ScriptType::LocalScript
        } else if same_text(class, "ModuleScript") {
            ScriptType::ModuleScript
        } else {
            ScriptType::Unknown(class.to_owned())
        }
    }

    /// Whether the type is one of the three script classes.
    pub fn is_known(&self) -> (known: bool)
        ensures
            known == !(*self is Unknown),
    {
        match self {
            ScriptType::Unknown(_) => false,
            _ => true,
        }
    }
}

/// The names of the three script classes differ from each other.
pub proof fn lemma_script_classes_differ()
    ensures
        "Script"@ != "LocalScript"@,
        "Script"@ != "ModuleScript"@,
        "LocalScript"@ != "ModuleScript"@,
{
    reveal_strlit("Script");
    reveal_strlit("LocalScript");
    reveal_strlit("ModuleScript");
    assert("Script"@.len() == 6);
    assert("LocalScript"@.len() == 11);
    assert("ModuleScript"@.len() == 12);
}

/// The views of a list of texts.
pub open spec fn texts(list: Seq<String>) -> Seq<Seq<char>> {
    list.map_values(|s: String| s@)
}

/// The matches of a regular expression in a text: the successive
/// non-overlapping matches from left to right, each as the text it covers,
/// or `None` where the pattern does not compile.
pub uninterp spec fn regex_matches(pattern: Seq<char>, text: Seq<char>) -> Option<Seq<Seq<char>>>;

/// `regex::Regex::new` followed by `Regex::find_iter`: compiles the pattern
/// and returns the text of each match in the order in which the iterator
/// yields them. A pattern that does not compile gives `None`.
#[verifier::external_body]
pub(crate) fn find_all(pattern: &str, text: &str) -> (found: Option<Vec<String>>)
    ensures
        match found {
            Some(list) => regex_matches(pattern@, text@) == Some(texts(list@)),
            None => regex_matches(pattern@, text@) is None,
        },
{
    match regex::Regex::new(pattern) {
        Ok(re) => Some(re.find_iter(text).map(|m| m.as_str().to_string()).collect()),
        Err(_) => None,
    }
}

/// The ids collected from a list of candidate texts, added to `seen`: each
/// text that is an asset id is appended unless the list holds it already.
pub open spec fn collected(seen: Seq<u64>, candidates: Seq<Seq<char>>) -> Seq<u64>
    decreases candidates.len(),
{
    if candidates.len() == 0 {
        seen
    } else {
        let before = collected(seen, candidates.drop_last());
        match token_id(candidates.last()) {
            Some(id) => if before.contains(id) {
                before
            } else {
                before.push(id)
            },
            None => before,
        }
    }
}

/// Whether no id occurs twice.
pub open spec fn distinct(ids: Seq<u64>) -> bool {
    forall|i: int, j: int| 0 <= i < j < ids.len() ==> ids[i] != ids[j]
}

/// Collecting keeps what was seen, adds only ids that a candidate names,
/// adds each such id, and adds none twice.
pub proof fn lemma_collected(seen: Seq<u64>, candidates: Seq<Seq<char>>)
    ensures
        seen.len() <= collected(seen, candidates).len(),
        collected(seen, candidates).take(seen.len() as int) == seen,
        distinct(seen) ==> distinct(collected(seen, candidates)),
        forall|id: u64| #[trigger]
            collected(seen, candidates).contains(id) <==> seen.contains(id) || exists|k: int|
                0 <= k < candidates.len() && token_id(#[trigger] candidates[k]) == Some(id),
    decreases candidates.len(),
{
    let all = collected(seen, candidates);
    if candidates.len() == 0 {
        assert(all.take(seen.len() as int) =~= seen);
    } else {
        let front = candidates.drop_last();
        let before = collected(seen, front);
        lemma_collected(seen, front);
        assert(all.take(seen.len() as int) =~= before.take(seen.len() as int));
        assert forall|id: u64| #[trigger]
            all.contains(id) <==> seen.contains(id) || exists|k: int|
                0 <= k < candidates.len() && token_id(#[trigger] candidates[k]) == Some(id) by {
            if all.contains(id) {
                let p = choose|p: int| 0 <= p < all.len() && all[p] == id;
                if p < before.len() {
                    assert(before[p] == id);
                    assert(before.contains(id));
                    if !seen.contains(id) {
                        let k = choose|k: int|
                            0 <= k < front.len() && token_id(#[trigger] front[k]) == Some(id);
                        assert(candidates[k] == front[k]);
                    }
                } else {
                    assert(token_id(candidates[candidates.len() - 1]) == Some(id));
                }
            }
            if seen.contains(id) {
                assert(before.contains(id));
                let p = choose|p: int| 0 <= p < before.len() && before[p] == id;
                assert(all[p] == id);
            }
            if exists|k: int|
                0 <= k < candidates.len() && token_id(#[trigger] candidates[k]) == Some(id) {
                let k = choose|k: int|
                    0 <= k < candidates.len() && token_id(#[trigger] candidates[k]) == Some(id);
                if k < front.len() {
                    assert(front[k] == candidates[k]);
                    assert(before.contains(id));
                    let p = choose|p: int| 0 <= p < before.len() && before[p] == id;
                    assert(all[p] == id);
                } else {
                    if before.contains(id) {
                        let p = choose|p: int| 0 <= p < before.len() && before[p] == id;
                        assert(all[p] == id);
                    } else {
                        assert(all[before.len() as int] == id);
                    }
                }
            }
        }
        if distinct(seen) {
            assert forall|i: int, j: int| 0 <= i < j < all.len() implies all[i] != all[j] by {
                if j < before.len() {
                    assert(before[i] != before[j]);
                } else {
                    assert(before[i] == all[i]);
                    assert(before.contains(before[i]));
                }
            }
        }
    }
}

/// Whether a list of ids holds `id`.
pub fn holds_id(ids: &Vec<u64>, id: u64) -> (held: bool)
    ensures
        held == ids@.contains(id),
{
    let mut i: usize = 0;
    while i < ids.len()
        invariant
            i <= ids.len(),
            forall|k: int| 0 <= k < i ==> ids@[k] != id,
        decreases ids.len() - i,
    {
        if ids[i] == id {
            return true;
        }
        i = i + 1;
    }
    false
}

/// Adds to `seen` the asset ids among the candidate texts, each once.
pub fn collect_ids(seen: &mut Vec<u64>, candidates: &Vec<String>)
    ensures
        final(seen)@ == collected(old(seen)@, texts(candidates@)),
{
    let ghost start = seen@;
    let ghost all = texts(candidates@);
    let mut i: usize = 0;
    proof {
        assert(all.take(0) =~= Seq::<Seq<char>>::empty());
    }
    while i < candidates.len()
        invariant
            i <= candidates.len(),
            all == texts(candidates@),
            seen@ == collected(start, all.take(i as int)),
        decreases candidates.len() - i,
    {
        proof {
            assert(all.take(i + 1).drop_last() =~= all.take(i as int));
            assert(all.take(i + 1).last() == candidates@[i as int]@);
        }
        match parse_id(candidates[i].as_str()) {
            Some(id) => {
                if !holds_id(seen, id) {
                    seen.push(id);
                }
            },
            None => {},
        }
        i = i + 1;
    }
    proof {
        assert(all.take(candidates@.len() as int) =~= all);
    }
}

/// The candidate texts that a script source holds: the matches of
/// `ID_PATTERN`, or none where the pattern does not compile.
pub open spec fn candidates_in(source: Seq<char>) -> Seq<Seq<char>> {
    match regex_matches(ID_PATTERN@, source) {
        Some(found) => found,
        None => Seq::empty(),
    }
}

/// Adds to `seen` the asset ids that a script source mentions: every run
/// of five or more digits that is a 64-bit number, each id once, in the
/// order of first mention.
pub fn ids_in_source(seen: &mut Vec<u64>, source: &str)
    ensures
        final(seen)@ == collected(old(seen)@, candidates_in(source@)),
{
    match find_all(ID_PATTERN, source) {
        Some(found) => {
            collect_ids(seen, &found);
        },
        None => {},
    }
}

} // verus!
