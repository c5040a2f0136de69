//! The rules presets are stored by.
//!
//! A preset is the panel's parameter values keyed by parameter id. Built-in
//! presets are compiled in and cannot be overwritten; the ones you save go
//! into the user's config directory as one small JSON file each. Reading and
//! writing the files is the caller's; what is here decides which names are
//! the same name, what a name's file is called, which file a name replaces
//! and in what order the saved ones are listed.

use std::collections::BTreeMap;

use vstd::prelude::*;

use crate::text::{
    alphanumeric, ascii_lower, ascii_lowered, eq_ignore_ascii_case, is_alphanumeric, lowercase, push_char,
    to_lowercase, trim, trimmed, lemma_trim_is_idempotent,
};

verus! {

broadcast use vstd::string::to_string_from_display_ensures_for_str;

/// A preset: parameter id to value, `V` being the value type.
#[derive(Clone, Debug, PartialEq)]
pub struct Preset<V> {
    pub name: String,
    pub values: BTreeMap<String, V>,
    /// Compiled in rather than loaded from disk, so it cannot be overwritten.
    pub built_in: bool,
}

/// Whether two preset names are the same name: their trimmed, lowercased
/// forms agree. Case is not a difference.
pub open spec fn same_names(a: Seq<char>, b: Seq<char>) -> bool {
    lowercase(trimmed(a)) == lowercase(trimmed(b))
}

/// Whether two preset names are the same name, which is how the list, the
/// replace question and the filesystem all have to see it.
pub fn same_name(a: &str, b: &str) -> (r: bool)
    ensures
        r == same_names(a@, b@),
{
    let left = to_lowercase(trim(a));
    let right = to_lowercase(trim(b));
    left == right
}

/// Being the same name is an equivalence: every name is the same as itself,
/// the order of two names does not matter, and two names that are both the
/// same as a third are the same as each other.
pub proof fn lemma_same_name_is_an_equivalence(a: Seq<char>, b: Seq<char>, c: Seq<char>)
    ensures
        same_names(a, a),
        same_names(a, b) == same_names(b, a),
        same_names(a, b) && same_names(b, c) ==> same_names(a, c),
{
}

/// A name is the same name as itself trimmed: white space around a name
/// never makes it a different one.
pub proof fn lemma_padding_is_not_a_difference(name: Seq<char>)
    ensures
        same_names(name, trimmed(name)),
{
    lemma_trim_is_idempotent(name);
}

/// Two names are the same name exactly when their trimmed, lowercased forms
/// are equal strings: case and surrounding white space are the only
/// differences that do not count, and any other difference does.
pub proof fn lemma_same_name_is_equal_folded_names(a: Seq<char>, b: Seq<char>)
    ensures
        same_names(a, b) ==> lowercase(trimmed(a)) =~= lowercase(trimmed(b)),
        lowercase(trimmed(a)) =~= lowercase(trimmed(b)) ==> same_names(a, b),
        trimmed(a) =~= trimmed(b) ==> same_names(a, b),
        !(lowercase(trimmed(a)) =~= lowercase(trimmed(b))) ==> !same_names(a, b),
{
}

/// Whether saving under `name` would replace one of the saved presets in
/// `presets`. Built-in presets are not counted: saving under one of their
/// names writes a new file beside it and replaces nothing.
pub open spec fn name_is_taken<V>(name: Seq<char>, presets: Seq<Preset<V>>) -> bool {
    exists|i: int| 0 <= i < presets.len() && !presets[i].built_in && same_names(presets[i].name@, name)
}

/// Whether saving under this name would replace a file of yours.
pub fn name_taken<V>(name: &str, presets: &[Preset<V>]) -> (r: bool)
    ensures
        r == name_is_taken(name@, presets@),
{
    let mut i: usize = 0;
    while i < presets.len()
        invariant
            i <= presets@.len(),
            forall|j: int|
                0 <= j < i ==> !(!presets@[j].built_in && #[trigger] same_names(presets@[j].name@, name@)),
        decreases presets@.len() - i,
    {
        if !presets[i].built_in && same_name(presets[i].name.as_str(), name) {
            return true;
        }
        i = i + 1;
    }
    false
}

/// Which of the saved presets, each read from the file it is paired with,
/// goes by `name`: the first that does. This is the file a save under that
/// name replaces, and the file a delete of that name removes.
pub fn find_saved<P, V>(saved: &[(P, Preset<V>)], name: &str) -> (r: Option<usize>)
    ensures
        match r {
            Some(i) => {
                &&& i < saved@.len()
                &&& same_names(saved@[i as int].1.name@, name@)
                &&& forall|j: int| 0 <= j < i ==> !same_names(saved@[j].1.name@, name@)
            },
            None => forall|j: int| 0 <= j < saved@.len() ==> !same_names(saved@[j].1.name@, name@),
        },
{
    let mut i: usize = 0;
    while i < saved.len()
        invariant
            i <= saved@.len(),
            forall|j: int| 0 <= j < i ==> !same_names(saved@[j].1.name@, name@),
        decreases saved@.len() - i,
    {
        if same_name(saved[i].1.name.as_str(), name) {
            return Some(i);
        }
        i = i + 1;
    }
    None
}

/// The replace question and the file agree: among saved presets, saving
/// under `name` is announced as replacing one exactly when there is a file
/// that goes by that name for the save to write over.
pub proof fn lemma_the_question_and_the_file_agree<P, V>(saved: Seq<(P, Preset<V>)>, name: Seq<char>)
    requires
        forall|i: int| 0 <= i < saved.len() ==> !(#[trigger] saved[i]).1.built_in,
    ensures
        name_is_taken(name, saved.map_values(|entry: (P, Preset<V>)| entry.1)) <==> exists|i: int|
            0 <= i < saved.len() && same_names((#[trigger] saved[i]).1.name@, name),
{
    let presets = saved.map_values(|entry: (P, Preset<V>)| entry.1);
    if name_is_taken(name, presets) {
        let i = choose|i: int|
            0 <= i < presets.len() && !presets[i].built_in && same_names(presets[i].name@, name);
        assert(same_names(saved[i].1.name@, name));
    }
    if exists|i: int| 0 <= i < saved.len() && same_names((#[trigger] saved[i]).1.name@, name) {
        let i = choose|i: int| 0 <= i < saved.len() && same_names((#[trigger] saved[i]).1.name@, name);
        assert(presets[i] == saved[i].1);
        assert(!presets[i].built_in && same_names(presets[i].name@, name));
    }
}

/// A built-in preset is never replaced: with only built-ins listed, no name
/// is taken.
pub proof fn lemma_built_ins_are_never_replaced<V>(presets: Seq<Preset<V>>, name: Seq<char>)
    requires
        forall|i: int| 0 <= i < presets.len() ==> (#[trigger] presets[i]).built_in,
    ensures
        !name_is_taken(name, presets),
{
}

/// Whether a name is something to save under: anything but white space.
pub fn has_name(name: &str) -> (r: bool)
    ensures
        r == (trimmed(name@).len() > 0),
{
    !trim(name).is_empty()
}

/// The name a saved preset is listed under: the one stored in it, or, if
/// that is blank, the stem of the file it came from, so that a preset whose
/// file was renamed follows the file. `None` when neither gives a name.
pub fn listed_name(stored: String, file_stem: Option<String>) -> (r: Option<String>)
    ensures
        trimmed(stored@).len() > 0 ==> r == Some(stored),
        trimmed(stored@).len() == 0 ==> r == file_stem,
{
    if !has_name(stored.as_str()) {
        file_stem
    } else {
        Some(stored)
    }
}

/// The parameters a preset leaves alone: oversampling, a choice about the
/// machine rather than the sound, and the power switch, which is not a
/// setting.
pub open spec fn left_alone(id: Seq<char>) -> bool {
    id == "os"@ || id == "power"@
}

/// Whether a preset captures the parameter with this id.
pub fn captures(id: &str) -> (r: bool)
    ensures
        r == !left_alone(id@),
{
    let id = id.to_string();
    let os = "os".to_string();
    let power = "power".to_string();
    !(id == os || id == power)
}

/// The MS-DOS device names, which Windows still resolves before it looks at
/// the filesystem, whatever the extension.
pub open spec fn device_names() -> Seq<Seq<char>> {
    seq![
        "con"@, "prn"@, "aux"@, "nul"@, "com1"@, "com2"@, "com3"@, "com4"@, "com5"@, "com6"@,
        "com7"@, "com8"@, "com9"@, "lpt1"@, "lpt2"@, "lpt3"@, "lpt4"@, "lpt5"@, "lpt6"@, "lpt7"@,
        "lpt8"@, "lpt9"@,
    ]
}

/// Whether `stem` is one of the device names, in any ASCII case.
pub open spec fn is_device_name(stem: Seq<char>) -> bool {
    exists|i: int| 0 <= i < device_names().len() && ascii_lowered(stem) == ascii_lowered(device_names()[i])
}

/// A character as it may stand in a file name: letters, digits, space,
/// hyphen and underscore as they are, anything else an underscore.
pub open spec fn file_char(c: char) -> char {
    if alphanumeric(c) || c == ' ' || c == '-' || c == '_' {
        c
    } else {
        '_'
    }
}

/// A file stem made from a name whose characters have been made safe: a
/// fallback if there is nothing left, an underscore on the end of a device
/// name.
pub open spec fn finished_stem(cleaned: Seq<char>) -> Seq<char> {
    if cleaned.len() == 0 {
        "preset"@
    } else if is_device_name(cleaned) {
        cleaned.push('_')
    } else {
        cleaned
    }
}

/// The file stem a preset name is saved under.
pub open spec fn stem_for(name: Seq<char>) -> Seq<char> {
    finished_stem(trimmed(name).map_values(|c: char| file_char(c)))
}

/// A preset's file is never one of Windows' device names, and its stem is
/// never empty: every character of it is one a file name may hold, or it is
/// the fallback "preset".
pub proof fn lemma_stems_are_safe_file_names(name: Seq<char>)
    ensures
        !is_device_name(stem_for(name)),
        stem_for(name).len() > 0,
        stem_for(name) == "preset"@ || forall|i: int|
            0 <= i < stem_for(name).len() ==> file_char(#[trigger] stem_for(name)[i]) == stem_for(name)[i],
{
    reveal_strlit("preset");
    reveal_strlit("con");
    reveal_strlit("prn");
    reveal_strlit("aux");
    reveal_strlit("nul");
    reveal_strlit("com1");
    reveal_strlit("com2");
    reveal_strlit("com3");
    reveal_strlit("com4");
    reveal_strlit("com5");
    reveal_strlit("com6");
    reveal_strlit("com7");
    reveal_strlit("com8");
    reveal_strlit("com9");
    reveal_strlit("lpt1");
    reveal_strlit("lpt2");
    reveal_strlit("lpt3");
    reveal_strlit("lpt4");
    reveal_strlit("lpt5");
    reveal_strlit("lpt6");
    reveal_strlit("lpt7");
    reveal_strlit("lpt8");
    reveal_strlit("lpt9");
    let stem = trimmed(name).map_values(|c: char| file_char(c));
    assert forall|i: int| 0 <= i < device_names().len() implies ({
        let d = #[trigger] device_names()[i];
        &&& 3 <= d.len() <= 4
        &&& ascii_lowered(d).last() != '_'
    }) by {
        let d = device_names()[i];
        assert(d.len() >= 3);
        assert(ascii_lowered(d).last() == ascii_lower(d.last()));
    }
    if stem.len() == 0 {
        assert forall|i: int| 0 <= i < device_names().len() implies ascii_lowered("preset"@) != ascii_lowered(
            device_names()[i],
        ) by {
            assert(ascii_lowered("preset"@).len() == 6);
        }
    } else if is_device_name(stem) {
        let fixed = stem.push('_');
        assert forall|i: int| 0 <= i < device_names().len() implies ascii_lowered(fixed) != ascii_lowered(
            device_names()[i],
        ) by {
            let d = device_names()[i];
            assert(ascii_lowered(fixed).last() == '_');
            if ascii_lowered(fixed) == ascii_lowered(d) {
                assert(ascii_lowered(d).last() == '_');
            }
        }
        assert forall|i: int| 0 <= i < fixed.len() implies file_char(#[trigger] fixed[i]) == fixed[i] by {
            if i < stem.len() {
                assert(fixed[i] == file_char(trimmed(name)[i]));
            }
        }
    } else {
        assert forall|i: int| 0 <= i < stem.len() implies file_char(#[trigger] stem[i]) == stem[i] by {
            assert(stem[i] == file_char(trimmed(name)[i]));
        }
    }
}

/// Turns a preset name into something safe to use as a file name.
///
/// Everything but letters, digits, space, hyphen and underscore becomes an
/// underscore, which covers the characters Windows forbids as well as the
/// ones Unix minds. A stem that is one of Windows' device names gets an
/// underscore appended. Windows' other rule, that a trailing dot or space is
/// stripped silently, needs no code: trimming has taken the spaces and the
/// dot has already become an underscore.
pub fn file_stem(name: &str) -> (r: String)
    ensures
        r@ == stem_for(name@),
{
    let trimmed_name = trim(name);
    let mut stem = String::new();
    for c in it: trimmed_name.chars()
        invariant
            it.seq() == trimmed_name@,
            stem@ == trimmed_name@.take(it.index() as int).map_values(|c: char| file_char(c)),
    {
        let keep = is_alphanumeric(c) || c == ' ' || c == '-' || c == '_';
        push_char(&mut stem, if keep { c } else { '_' });
        proof {
            assert(trimmed_name@.take(it.index() + 1) =~= trimmed_name@.take(it.index() as int).push(c));
        }
    }
    proof {
        assert(trimmed_name@.take(trimmed_name@.len() as int) =~= trimmed_name@);
        assert(stem@ =~= trimmed(name@).map_values(|c: char| file_char(c)));
    }
    finish_stem(stem)
}

/// Finishes a file stem whose characters have been made safe: "preset" if
/// nothing is left of it, and an underscore on the end if it is one of
/// Windows' device names in any case.
pub fn finish_stem(cleaned: String) -> (r: String)
    ensures
        r@ == finished_stem(cleaned@),
{
    let mut stem = cleaned;
    if stem.as_str().is_empty() {
        return "preset".to_string();
    }
    let devices: [&str; 22] = [
        "con", "prn", "aux", "nul", "com1", "com2", "com3", "com4", "com5", "com6", "com7", "com8",
        "com9", "lpt1", "lpt2", "lpt3", "lpt4", "lpt5", "lpt6", "lpt7", "lpt8", "lpt9",
    ];
    proof {
        assert forall|i: int| 0 <= i < 22 implies devices@[i]@ == device_names()[i] by {}
    }
    let mut i: usize = 0;
    while i < 22
        invariant
            i <= 22,
            stem@ == cleaned@,
            stem@.len() > 0,
            forall|j: int| 0 <= j < 22 ==> devices@[j]@ == device_names()[j],
            forall|j: int| 0 <= j < i ==> ascii_lowered(stem@) != ascii_lowered(device_names()[j]),
        decreases 22 - i,
    {
        if eq_ignore_ascii_case(stem.as_str(), devices[i]) {
            proof {
                assert(ascii_lowered(stem@) == ascii_lowered(device_names()[i as int]));
                assert(is_device_name(stem@));
            }
            push_char(&mut stem, '_');
            return stem;
        }
        i = i + 1;
    }
    stem
}

/// Whether `a` sorts no later than `b`, comparing character by character
/// by code point, a prefix first: the order of `String`'s comparison.
pub open spec fn lex_le(a: Seq<char>, b: Seq<char>) -> bool
    decreases a.len(),
{
    if a.len() == 0 {
        true
    } else if b.len() == 0 {
        false
    } else if a[0] != b[0] {
        (a[0] as int) < (b[0] as int)
    } else {
        lex_le(a.drop_first(), b.drop_first())
    }
}

/// Every name sorts no later than itself.
pub proof fn lemma_lex_le_reflexive(a: Seq<char>)
    ensures
        lex_le(a, a),
    decreases a.len(),
{
    if a.len() > 0 {
        lemma_lex_le_reflexive(a.drop_first());
    }
}

/// Of any two names one sorts no later than the other.
pub proof fn lemma_lex_le_total(a: Seq<char>, b: Seq<char>)
    ensures
        lex_le(a, b) || lex_le(b, a),
    decreases a.len(),
{
    if a.len() > 0 && b.len() > 0 {
        if a[0] == b[0] {
            lemma_lex_le_total(a.drop_first(), b.drop_first());
        } else {
            assert((a[0] as int) != (b[0] as int));
        }
    }
}

/// The order is transitive.
pub proof fn lemma_lex_le_transitive(a: Seq<char>, b: Seq<char>, c: Seq<char>)
    requires
        lex_le(a, b),
        lex_le(b, c),
    ensures
        lex_le(a, c),
    decreases a.len(),
{
    if a.len() > 0 && b.len() > 0 && c.len() > 0 && a[0] == b[0] && b[0] == c[0] {
        lemma_lex_le_transitive(a.drop_first(), b.drop_first(), c.drop_first());
    }
}

/// Two names that each sort no later than the other are the same.
pub proof fn lemma_lex_le_antisymmetric(a: Seq<char>, b: Seq<char>)
    requires
        lex_le(a, b),
        lex_le(b, a),
    ensures
        a == b,
    decreases a.len(),
{
    if a.len() > 0 && b.len() > 0 {
        lemma_lex_le_antisymmetric(a.drop_first(), b.drop_first());
        assert(a =~= seq![a[0]] + a.drop_first());
        assert(b =~= seq![b[0]] + b.drop_first());
    }
}

/// Two names are ordered by the first character in which they differ,
/// whatever their lengths: the one whose character there is lower sorts
/// first.
pub proof fn lemma_names_sort_by_their_first_difference(a: Seq<char>, b: Seq<char>, i: int)
    requires
        0 <= i < a.len(),
        i < b.len(),
        forall|j: int| 0 <= j < i ==> a[j] == b[j],
        a[i] != b[i],
    ensures
        lex_le(a, b) == ((a[i] as int) < (b[i] as int)),
    decreases i,
{
    if i > 0 {
        assert(a[0] == b[0]);
        let (x, y) = (a.drop_first(), b.drop_first());
        assert forall|j: int| 0 <= j < i - 1 implies x[j] == y[j] by {
            assert(x[j] == a[j + 1]);
            assert(y[j] == b[j + 1]);
        }
        lemma_names_sort_by_their_first_difference(x, y, i - 1);
    }
}

/// A name sorts before every longer name it begins: a proper prefix comes
/// first, and a longer name never sorts no later than its own prefix.
pub proof fn lemma_a_prefix_sorts_first(a: Seq<char>, s: Seq<char>)
    ensures
        lex_le(a, a + s),
        s.len() > 0 ==> !lex_le(a + s, a),
    decreases a.len(),
{
    if a.len() == 0 {
        assert(a + s =~= s);
    } else {
        assert((a + s)[0] == a[0]);
        assert((a + s).drop_first() =~= a.drop_first() + s);
        lemma_a_prefix_sorts_first(a.drop_first(), s);
    }
}

/// What the saved presets are listed by: the name, lowercased.
pub open spec fn name_key<V>(preset: Preset<V>) -> Seq<char> {
    lowercase(preset.name@)
}

/// `order` arranges `n` items: it picks each of `0..n` exactly once.
pub open spec fn arranges(order: Seq<int>, n: nat) -> bool {
    &&& order.len() == n
    &&& forall|a: int| 0 <= a < n ==> 0 <= #[trigger] order[a] < n
    &&& forall|a: int, b: int| 0 <= a < b < n ==> order[a] != order[b]
}

/// `output` is `input` taken in the order `order`, sorted by lowercased name,
/// with presets of the same lowercased name in the order they came in.
pub open spec fn stably_sorted_by<V>(input: Seq<Preset<V>>, output: Seq<Preset<V>>, order: Seq<int>) -> bool {
    &&& arranges(order, input.len())
    &&& output.len() == input.len()
    &&& forall|a: int| 0 <= a < output.len() ==> #[trigger] output[a] == input[order[a]]
    &&& forall|a: int, b: int|
        0 <= a < b < output.len() ==> lex_le(name_key(#[trigger] output[a]), name_key(#[trigger] output[b]))
    &&& forall|a: int, b: int|
        0 <= a < b < output.len() && name_key(#[trigger] output[a]) == name_key(#[trigger] output[b])
            ==> order[a] < order[b]
}

/// The characters of a string, one by one.
fn chars_of(s: &str) -> (r: Vec<char>)
    ensures
        r@ == s@,
{
    let mut out: Vec<char> = Vec::new();
    for c in it: s.chars()
        invariant
            it.seq() == s@,
            out@ == s@.take(it.index() as int),
    {
        out.push(c);
        proof {
            assert(s@.take(it.index() + 1) =~= s@.take(it.index() as int).push(c));
        }
    }
    proof {
        assert(s@.take(s@.len() as int) =~= s@);
    }
    out
}

/// Whether `a` sorts no later than `b`.
fn sorts_no_later(a: &Vec<char>, b: &Vec<char>) -> (r: bool)
    ensures
        r == lex_le(a@, b@),
{
    let mut i: usize = 0;
    proof {
        assert(a@.skip(0) =~= a@);
        assert(b@.skip(0) =~= b@);
    }
    while i < a.len() && i < b.len() && a[i] == b[i]
        invariant
            i <= a@.len(),
            i <= b@.len(),
            lex_le(a@, b@) == lex_le(a@.skip(i as int), b@.skip(i as int)),
        decreases a@.len() - i,
    {
        proof {
            assert(a@.skip(i as int).drop_first() =~= a@.skip(i + 1));
            assert(b@.skip(i as int).drop_first() =~= b@.skip(i + 1));
        }
        i = i + 1;
    }
    if i == a.len() {
        true
    } else if i == b.len() {
        false
    } else {
        proof {
            assert(a@.skip(i as int)[0] == a@[i as int]);
            assert(b@.skip(i as int)[0] == b@[i as int]);
        }
        a[i] < b[i]
    }
}

/// `output` is `input` taken in the order `order`, sorted by `keys`, the
/// key of `input[i]` being `keys[i]`, and items of the same key in the order
/// they came in.
pub open spec fn stably_sorted<T>(input: Seq<T>, keys: Seq<Seq<char>>, output: Seq<T>, order: Seq<int>) -> bool {
    &&& arranges(order, input.len())
    &&& output.len() == input.len()
    &&& forall|a: int| 0 <= a < output.len() ==> #[trigger] output[a] == input[order[a]]
    &&& forall|a: int, b: int|
        0 <= a < b < output.len() ==> lex_le(keys[#[trigger] order[a]], keys[#[trigger] order[b]])
    &&& forall|a: int, b: int|
        0 <= a < b < output.len() && keys[#[trigger] order[a]] == keys[#[trigger] order[b]] ==> order[a] < order[b]
}

/// The keys as sequences of characters.
pub open spec fn key_views(keys: Seq<Vec<char>>) -> Seq<Seq<char>> {
    keys.map_values(|k: Vec<char>| k@)
}

/// Sorts `items` by `keys`, the key of `items[i]` being `keys[i]`: a stable
/// insertion sort, so items of the same key keep the order they came in.
pub fn sort_by_keys<T>(items: Vec<T>, keys: Vec<Vec<char>>) -> (r: Vec<T>)
    requires
        items@.len() == keys@.len(),
    ensures
        exists|order: Seq<int>| #[trigger] stably_sorted(items@, key_views(keys@), r@, order),
{
    let ghost input = items@;
    let ghost kv = key_views(keys@);
    let n: usize = items.len();
    let mut rest = items;
    let mut rest_keys = keys;
    let mut sorted: Vec<T> = Vec::new();
    let mut sorted_keys: Vec<Vec<char>> = Vec::new();
    let ghost mut order: Seq<int> = Seq::empty();
    let mut i: usize = 0;
    while i < n
        invariant
            n == input.len(),
            kv.len() == n,
            i <= n,
            rest@ == input.skip(i as int),
            rest_keys@.len() == n - i,
            forall|a: int| 0 <= a < n - i ==> (#[trigger] rest_keys@[a])@ == kv[a + i],
            sorted@.len() == i,
            sorted_keys@.len() == i,
            order.len() == i,
            forall|a: int| 0 <= a < i ==> 0 <= #[trigger] order[a] < i,
            forall|a: int, b: int| 0 <= a < b < i ==> order[a] != order[b],
            forall|a: int| 0 <= a < i ==> #[trigger] sorted@[a] == input[order[a]],
            forall|a: int| 0 <= a < i ==> (#[trigger] sorted_keys@[a])@ == kv[order[a]],
            forall|a: int, b: int| 0 <= a < b < i ==> lex_le(kv[#[trigger] order[a]], kv[#[trigger] order[b]]),
            forall|a: int, b: int|
                0 <= a < b < i && kv[#[trigger] order[a]] == kv[#[trigger] order[b]] ==> order[a] < order[b],
        decreases n - i,
    {
        let item = rest.remove(0);
        let key = rest_keys.remove(0);
        proof {
            assert(item == input[i as int]);
            assert(rest@ =~= input.skip(i + 1));
            assert(key@ == kv[i as int]);
        }
        let mut pos: usize = 0;
        while pos < sorted.len() && sorts_no_later(&sorted_keys[pos], &key)
            invariant
                pos <= sorted@.len(),
                sorted_keys@.len() == sorted@.len(),
                forall|a: int| 0 <= a < pos ==> lex_le((#[trigger] sorted_keys@[a])@, key@),
            decreases sorted@.len() - pos,
        {
            pos = pos + 1;
        }
        let ghost before = key_views(sorted_keys@);
        let ghost before_order = order;
        let ghost before_items = sorted@;
        let ghost before_keys = sorted_keys@;
        let ghost k = key@;
        proof {
            assert forall|a: int| 0 <= a < pos implies lex_le(before[a], k) by {
                assert(before[a] == sorted_keys@[a]@);
            }
            // Everything from `pos` on sorts strictly after the new item.
            assert forall|a: int| pos <= a < before.len() implies !lex_le(#[trigger] before[a], k) by {
                assert(before[a] == kv[before_order[a]]);
                assert(before[pos as int] == kv[before_order[pos as int]]);
                lemma_lex_le_total(before[pos as int], k);
                if a > pos {
                    assert(lex_le(kv[before_order[pos as int]], kv[before_order[a]]));
                    if lex_le(before[a], k) {
                        lemma_lex_le_transitive(before[pos as int], before[a], k);
                    }
                }
            }
        }
        sorted.insert(pos, item);
        sorted_keys.insert(pos, key);
        proof {
            order = before_order.insert(pos as int, i as int);
            assert forall|a: int| 0 <= a < i + 1 implies (#[trigger] sorted_keys@[a])@ == kv[order[a]] by {
                if a < pos {
                } else if a == pos {
                } else {
                    assert(sorted_keys@[a] == before_keys[a - 1]);
                }
            }
            assert forall|a: int| 0 <= a < i + 1 implies kv[#[trigger] order[a]] == (if a < pos {
                before[a]
            } else if a == pos {
                k
            } else {
                before[a - 1]
            }) by {
                if a < pos {
                    assert(before[a] == kv[before_order[a]]);
                } else if a > pos {
                    assert(before[a - 1] == kv[before_order[a - 1]]);
                }
            }
            assert forall|a: int, b: int| 0 <= a < b < i + 1 implies lex_le(kv[#[trigger] order[a]], kv[#[trigger] order[b]]) by {
                if a < pos && b == pos {
                } else if a == pos && b > pos {
                    lemma_lex_le_total(before[b - 1], k);
                } else if a < pos && b > pos {
                    assert(lex_le(kv[before_order[a]], kv[before_order[b - 1]]));
                } else if a > pos {
                    assert(lex_le(kv[before_order[a - 1]], kv[before_order[b - 1]]));
                } else {
                    assert(lex_le(kv[before_order[a]], kv[before_order[b]]));
                }
            }
            assert forall|a: int, b: int|
                0 <= a < b < i + 1 && kv[#[trigger] order[a]] == kv[#[trigger] order[b]] implies order[a] < order[b] by {
                if a == pos && b > pos {
                    lemma_lex_le_reflexive(k);
                } else if a < pos && b == pos {
                } else if a < pos && b > pos {
                    assert(kv[before_order[a]] == kv[before_order[b - 1]] ==> before_order[a] < before_order[b - 1]);
                } else if a > pos {
                    assert(kv[before_order[a - 1]] == kv[before_order[b - 1]] ==> before_order[a - 1] < before_order[b - 1]);
                } else {
                }
            }
            assert forall|a: int| 0 <= a < i + 1 implies #[trigger] sorted@[a] == input[order[a]] by {
                if a > pos {
                    assert(sorted@[a] == before_items[a - 1]);
                }
            }
        }
        i = i + 1;
    }
    proof {
        assert(stably_sorted(input, kv, sorted@, order));
    }
    sorted
}

/// The saved presets in the order the list shows them: by name, ignoring
/// case, and presets whose names differ only in case in the order they
/// were read.
pub fn sort_by_name<V>(presets: Vec<Preset<V>>) -> (r: Vec<Preset<V>>)
    ensures
        exists|order: Seq<int>| stably_sorted_by(presets@, r@, order),
{
    let mut keys: Vec<Vec<char>> = Vec::new();
    let mut i: usize = 0;
    while i < presets.len()
        invariant
            i <= presets@.len(),
            keys@.len() == i,
            forall|a: int| 0 <= a < i ==> (#[trigger] keys@[a])@ == name_key(presets@[a]),
        decreases presets@.len() - i,
    {
        keys.push(chars_of(to_lowercase(presets[i].name.as_str()).as_str()));
        i = i + 1;
    }
    let ghost input = presets@;
    let ghost kv = key_views(keys@);
    let r = sort_by_keys(presets, keys);
    proof {
        let order = choose|order: Seq<int>| stably_sorted(input, kv, r@, order);
        assert forall|a: int| 0 <= a < r@.len() implies name_key(#[trigger] r@[a]) == kv[order[a]] by {
            assert(r@[a] == input[order[a]]);
        }
        assert(stably_sorted_by(input, r@, order));
    }
    r
}

/// The decimal digits of `n`.
pub open spec fn decimal(n: nat) -> Seq<char>
    decreases n,
{
    if n < 10 {
        seq![digit_char(n)]
    } else {
        decimal(n / 10).push(digit_char(n % 10))
    }
}

/// The characters of the decimal digits, from nought to nine.
pub open spec fn digit_chars() -> Seq<char> {
    seq!['0', '1', '2', '3', '4', '5', '6', '7', '8', '9']
}

/// The character of a decimal digit.
pub open spec fn digit_char(d: nat) -> char {
    digit_chars()[d as int]
}

/// Appends the decimal digits of `n` to `s`.
fn push_decimal(s: &mut String, n: u32)
    ensures
        final(s)@ == old(s)@ + decimal(n as nat),
    decreases n,
{
    if n >= 10 {
        push_decimal(s, n / 10);
    }
    let digits = ['0', '1', '2', '3', '4', '5', '6', '7', '8', '9'];
    let d: usize = (n % 10) as usize;
    push_char(s, digits[d]);
    proof {
        assert(digits@[d as int] == digit_chars()[(n % 10) as int]);
    }
}

/// Appends all of `tail` to `s`.
fn push_str(s: &mut String, tail: &str)
    ensures
        final(s)@ == old(s)@ + tail@,
{
    let ghost start = s@;
    for c in it: tail.chars()
        invariant
            it.seq() == tail@,
            s@ == start + tail@.take(it.index() as int),
    {
        push_char(s, c);
        proof {
            assert(tail@.take(it.index() + 1) =~= tail@.take(it.index() as int).push(c));
        }
    }
    proof {
        assert(tail@.take(tail@.len() as int) =~= tail@);
    }
}

/// The file name tried for a preset whose stem is `stem` on try number
/// `number`: the stem's own file first, then with a number on the end,
/// from 2 up, until one is free. Two different names can clean up to the
/// same stem, and writing over the other one would lose it.
pub open spec fn file_name_for(stem: Seq<char>, number: nat) -> Seq<char> {
    if number <= 1 {
        stem + ".json"@
    } else {
        stem + " "@ + decimal(number) + ".json"@
    }
}

/// Every number has its own digits.
pub proof fn lemma_decimal_is_one_to_one(m: nat, n: nat)
    requires
        decimal(m) == decimal(n),
    ensures
        m == n,
    decreases m,
{
    lemma_decimal_length(m);
    lemma_decimal_length(n);
    if m >= 10 && n >= 10 {
        assert(decimal(m / 10) == decimal(m).drop_last());
        assert(decimal(n / 10) == decimal(n).drop_last());
        lemma_decimal_is_one_to_one(m / 10, n / 10);
        assert(decimal(m).last() == digit_char(m % 10));
        assert(decimal(n).last() == digit_char(n % 10));
        assert(digit_char(m % 10) == digit_char(n % 10));
    } else if m < 10 && n < 10 {
        assert(digit_char(m) == decimal(m)[0]);
        assert(digit_char(n) == decimal(n)[0]);
    }
}

/// A number of two digits or more has more than one digit; none has none.
proof fn lemma_decimal_length(n: nat)
    ensures
        decimal(n).len() >= 1,
        n >= 10 ==> decimal(n).len() >= 2,
    decreases n,
{
    if n >= 10 {
        lemma_decimal_length(n / 10);
    }
}

/// The tries are all different files: the name's own file, then a new
/// number each time, so looking for a free one never tries the same file
/// twice.
pub proof fn lemma_each_try_is_a_new_file(stem: Seq<char>, m: nat, n: nat)
    requires
        1 <= m < n,
    ensures
        file_name_for(stem, m) != file_name_for(stem, n),
{
    reveal_strlit(" ");
    reveal_strlit(".json");
    lemma_decimal_length(m);
    lemma_decimal_length(n);
    let b = file_name_for(stem, n);
    if m == 1 {
        assert(file_name_for(stem, m).len() < b.len());
    } else {
        let a = file_name_for(stem, m);
        assert(" "@.len() == 1);
        assert(".json"@.len() == 5);
        assert(a.len() == stem.len() + 1 + decimal(m).len() + 5);
        assert(b.len() == stem.len() + 1 + decimal(n).len() + 5);
        if a == b {
            let start: int = stem.len() + 1int;
            assert(decimal(m).len() == decimal(n).len());
            assert(a.subrange(start, start + decimal(m).len()) =~= decimal(m));
            assert(b.subrange(start, start + decimal(n).len()) =~= decimal(n));
            lemma_decimal_is_one_to_one(m, n);
        }
    }
}

/// The file name of try `number` for the stem `stem`.
pub fn file_name(stem: &str, number: u32) -> (r: String)
    ensures
        r@ == file_name_for(stem@, number as nat),
{
    let mut name = String::new();
    push_str(&mut name, stem);
    if number > 1 {
        push_str(&mut name, " ");
        push_decimal(&mut name, number);
    }
    push_str(&mut name, ".json");
    proof {
        assert(name@ =~= file_name_for(stem@, number as nat));
    }
    name
}

/// Which of two environment variables the preset folder is found under.
#[derive(Clone, Copy, PartialEq, Eq, Structural, Debug)]
pub enum FolderBase {
    /// The setting meant for it: `%APPDATA%` on Windows,
    /// `$XDG_CONFIG_HOME` elsewhere.
    Setting,
    /// The one it is derived from when the setting is missing:
    /// `%USERPROFILE%` on Windows, `$HOME` elsewhere.
    Fallback,
}

/// The folder rule, given for each variable whether it is set and, if so,
/// whether it holds an absolute path: the setting when it is set and
/// absolute; otherwise the fallback when it is set and, where the platform's
/// rule asks for that too, absolute; otherwise no folder at all. A relative
/// setting is a host bug, and following it would scatter presets through
/// whatever directory the host happened to start in.
pub open spec fn chosen_base(setting: Option<bool>, fallback: Option<bool>, fallback_absolute_only: bool) -> Option<FolderBase> {
    if setting == Some(true) {
        Some(FolderBase::Setting)
    } else if fallback == Some(true) || (fallback == Some(false) && !fallback_absolute_only) {
        Some(FolderBase::Fallback)
    } else {
        None
    }
}

/// The folder rule's promises: an absolute setting always wins; a relative
/// or missing setting is never followed; a fallback that is set and
/// absolute is always usable when the setting is not; a relative fallback
/// is refused only where the platform asks for an absolute one; and there
/// is no folder only when neither variable can be used.
pub proof fn lemma_the_folder_rule(setting: Option<bool>, fallback: Option<bool>, fallback_absolute_only: bool)
    ensures
        chosen_base(Some(true), fallback, fallback_absolute_only) == Some(FolderBase::Setting),
        chosen_base(setting, fallback, fallback_absolute_only) == Some(FolderBase::Setting) ==> setting == Some(true),
        setting != Some(true) ==> chosen_base(setting, Some(true), fallback_absolute_only) == Some(FolderBase::Fallback),
        setting != Some(true) ==> chosen_base(setting, Some(false), true) is None,
        setting != Some(true) ==> chosen_base(setting, Some(false), false) == Some(FolderBase::Fallback),
        setting != Some(true) ==> chosen_base(setting, None, fallback_absolute_only) is None,
{
}

/// Which variable the preset folder is found under. `setting` and
/// `fallback` are `None` for a variable that is not set and `Some` of
/// whether its path is absolute for one that is; `fallback_absolute_only`
/// is whether the fallback, too, must be absolute (on Windows it must).
pub fn folder_base(setting: Option<bool>, fallback: Option<bool>, fallback_absolute_only: bool) -> (r: Option<FolderBase>)
    ensures
        r == chosen_base(setting, fallback, fallback_absolute_only),
{
    match setting {
        Some(true) => Some(FolderBase::Setting),
        _ => match fallback {
            Some(true) => Some(FolderBase::Fallback),
            Some(false) => if fallback_absolute_only {
                None
            } else {
                Some(FolderBase::Fallback)
            },
            None => None,
        },
    }
}

} // verus!
