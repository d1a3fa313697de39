//! The list of packages to poll, as it is configured: names separated by commas.

use vstd::prelude::*;
use crate::chars::chars_of;

verus! {

/// Why no package can be polled.
#[derive(Debug, Clone, Copy, PartialEq, Eq, Structural)]
pub enum ConfigError {
    /// No list is configured.
    Missing,
    /// The configured list names no package.
    Empty,
}

/// Whether `c` is white space: a character with the Unicode property `White_Space`.
pub open spec fn is_white_space(c: char) -> bool {
    let code = c as u32;
    ||| 0x09 <= code <= 0x0D
    ||| code == 0x20
    ||| code == 0x85
    ||| code == 0xA0
    ||| code == 0x1680
    ||| 0x2000 <= code <= 0x200A
    ||| code == 0x2028
    ||| code == 0x2029
    ||| code == 0x202F
    ||| code == 0x205F
    ||| code == 0x3000
}

/// `text` without the white space at its start.
pub open spec fn trim_start(text: Seq<char>) -> Seq<char>
    decreases text.len(),
{
    if text.len() > 0 && is_white_space(text[0]) {
        trim_start(text.drop_first())
    } else {
        text
    }
}

/// `text` without the white space at its end.
pub open spec fn trim_end(text: Seq<char>) -> Seq<char>
    decreases text.len(),
{
    if text.len() > 0 && is_white_space(text.last()) {
        trim_end(text.drop_last())
    } else {
        text
    }
}

/// `text` without the white space at its start and at its end.
pub open spec fn trimmed(text: Seq<char>) -> Seq<char> {
    trim_end(trim_start(text))
}

/// The fields of `text`: what stands before, between and after its commas. There is
/// always at least one field, and fields may be empty.
pub open spec fn fields(text: Seq<char>) -> Seq<Seq<char>>
    decreases text.len(),
{
    if text.len() == 0 {
        seq![Seq::empty()]
    } else {
        let before = fields(text.drop_last());
        if text.last() == ',' {
            before.push(Seq::empty())
        } else {
            before.drop_last().push(before.last().push(text.last()))
        }
    }
}

/// The names in `fields`: each field trimmed, those that are then empty left out.
pub open spec fn names_of(fields: Seq<Seq<char>>) -> Seq<Seq<char>>
    decreases fields.len(),
{
    if fields.len() == 0 {
        Seq::empty()
    } else {
        let before = names_of(fields.drop_last());
        let name = trimmed(fields.last());
        if name.len() == 0 {
            before
        } else {
            before.push(name)
        }
    }
}

/// The package names that the configured value `raw` lists, in its order.
pub open spec fn package_names_of(raw: Seq<char>) -> Seq<Seq<char>> {
    names_of(fields(raw))
}

/// Whether `name` can name a package: it is not empty and neither starts nor ends with
/// white space.
pub open spec fn is_package_name(name: Seq<char>) -> bool {
    &&& name.len() > 0
    &&& !is_white_space(name[0])
    &&& !is_white_space(name.last())
}

/// The texts of `parts` with a comma between each two of them.
pub open spec fn joined_by_commas(parts: Seq<Seq<char>>) -> Seq<char>
    decreases parts.len(),
{
    if parts.len() == 0 {
        Seq::empty()
    } else if parts.len() == 1 {
        parts[0]
    } else {
        joined_by_commas(parts.drop_last()) + seq![','] + parts.last()
    }
}

/// Cutting a text at its commas loses nothing and cuts nowhere else: no field holds a
/// comma, and the fields with commas put back between them are the text.
pub proof fn lemma_fields_rebuild_text(text: Seq<char>)
    ensures
        fields(text).len() >= 1,
        forall|i: int, j: int|
            0 <= i < fields(text).len() && 0 <= j < fields(text)[i].len() ==> (
            #[trigger] fields(text)[i][j]) != ',',
        joined_by_commas(fields(text)) == text,
    decreases text.len(),
{
    if text.len() == 0 {
        assert(fields(text)[0] =~= Seq::<char>::empty());
        assert(joined_by_commas(fields(text)) =~= text);
    } else {
        let before = fields(text.drop_last());
        let all = fields(text);
        let c = text.last();
        lemma_fields_rebuild_text(text.drop_last());
        if c == ',' {
            assert(all.drop_last() =~= before);
            assert(joined_by_commas(all) =~= text.drop_last() + seq![','] + all.last());
            assert(joined_by_commas(all) =~= text);
            assert forall|i: int, j: int|
                0 <= i < all.len() && 0 <= j < all[i].len() implies (#[trigger] all[i][j])
                != ',' by {
                if i < before.len() {
                    assert(all[i][j] == before[i][j]);
                }
            }
        } else {
            let last = before.last().push(c);
            assert(all.drop_last() =~= before.drop_last());
            assert(all.last() == last);
            if before.len() == 1 {
                assert(joined_by_commas(all) =~= text.drop_last().push(c));
            } else {
                assert(joined_by_commas(all) =~= (joined_by_commas(before.drop_last()) + seq![',']
                    + before.last()).push(c));
            }
            assert(text.drop_last().push(c) =~= text);
            assert forall|i: int, j: int|
                0 <= i < all.len() && 0 <= j < all[i].len() implies (#[trigger] all[i][j])
                != ',' by {
                if i < before.len() - 1 {
                    assert(all[i][j] == before[i][j]);
                } else if j < before.last().len() {
                    assert(all[i][j] == before[before.len() - 1][j]);
                }
            }
        }
    }
}

/// Where the white space at the start of a text ends, the rest of the text begins.
pub proof fn lemma_trim_start_at(text: Seq<char>, k: int)
    requires
        0 <= k <= text.len(),
        forall|j: int| 0 <= j < k ==> is_white_space(text[j]),
        k == text.len() || !is_white_space(text[k]),
    ensures
        trim_start(text) == text.subrange(k, text.len() as int),
    decreases k,
{
    if k == 0 {
        assert(text.subrange(0, text.len() as int) =~= text);
    } else {
        let rest = text.drop_first();
        assert forall|j: int| 0 <= j < k - 1 implies is_white_space(rest[j]) by {
            assert(rest[j] == text[j + 1]);
        }
        if k < text.len() {
            assert(rest[k - 1] == text[k]);
        }
        lemma_trim_start_at(rest, k - 1);
        assert(rest.subrange(k - 1, rest.len() as int) =~= text.subrange(k, text.len() as int));
    }
}

/// Where the white space at the end of a text begins, the text before it ends.
pub proof fn lemma_trim_end_at(text: Seq<char>, k: int)
    requires
        0 <= k <= text.len(),
        forall|j: int| k <= j < text.len() ==> is_white_space(text[j]),
        k == 0 || !is_white_space(text[k - 1]),
    ensures
        trim_end(text) == text.subrange(0, k),
    decreases text.len() - k,
{
    if k == text.len() {
        assert(text.subrange(0, k) =~= text);
    } else {
        let rest = text.drop_last();
        assert(is_white_space(text[text.len() - 1]));
        assert forall|j: int| k <= j < rest.len() implies is_white_space(rest[j]) by {
            assert(rest[j] == text[j]);
        }
        if k > 0 {
            assert(rest[k - 1] == text[k - 1]);
        }
        lemma_trim_end_at(rest, k);
        assert(rest.subrange(0, k) =~= text.subrange(0, k));
    }
}

/// What is left of a text without the white space at its start is empty or starts with
/// another character.
pub proof fn lemma_trim_start_first(text: Seq<char>)
    ensures
        trim_start(text).len() == 0 || !is_white_space(trim_start(text)[0]),
    decreases text.len(),
{
    if text.len() > 0 && is_white_space(text[0]) {
        lemma_trim_start_first(text.drop_first());
    }
}

/// What is left of a text without the white space at its end is the front of the text, and
/// it is empty or ends with another character.
pub proof fn lemma_trim_end_last(text: Seq<char>)
    ensures
        trim_end(text).len() <= text.len(),
        trim_end(text) == text.take(trim_end(text).len() as int),
        trim_end(text).len() == 0 || !is_white_space(trim_end(text).last()),
    decreases text.len(),
{
    if text.len() > 0 && is_white_space(text.last()) {
        let rest = text.drop_last();
        lemma_trim_end_last(rest);
        assert(rest.take(trim_end(rest).len() as int) =~= text.take(trim_end(rest).len() as int));
    } else {
        assert(text.take(text.len() as int) =~= text);
    }
}

/// Every name that is read out of the fields of a configured value can name a package: it
/// is not empty and has no white space at either end.
pub proof fn lemma_names_are_package_names(fields: Seq<Seq<char>>)
    ensures
        forall|i: int|
            0 <= i < names_of(fields).len() ==> is_package_name(#[trigger] names_of(fields)[i]),
    decreases fields.len(),
{
    if fields.len() > 0 {
        lemma_names_are_package_names(fields.drop_last());
        let before = names_of(fields.drop_last());
        let start = trim_start(fields.last());
        lemma_trim_start_first(fields.last());
        lemma_trim_end_last(start);
        let name = trimmed(fields.last());
        let all = names_of(fields);
        assert forall|i: int| 0 <= i < all.len() implies is_package_name(#[trigger] all[i]) by {
            if i < before.len() {
                assert(all[i] == before[i]);
            } else {
                assert(all[i] == name);
                assert(name[0] == start.take(name.len() as int)[0]);
            }
        }
    }
}

/// Tells white space from other characters.
pub fn is_white_space_char(c: char) -> (answer: bool)
    ensures
        answer == is_white_space(c),
{
    let code: u32 = c as u32;
    (0x09 <= code && code <= 0x0D) || code == 0x20 || code == 0x85 || code == 0xA0 || code
        == 0x1680 || (0x2000 <= code && code <= 0x200A) || code == 0x2028 || code == 0x2029
        || code == 0x202F || code == 0x205F || code == 0x3000
}

/// Finds in `chars[from..to]` the part that is left when the white space at both ends is
/// taken away.
pub fn trim_bounds(chars: &Vec<char>, from: usize, to: usize) -> (bounds: (usize, usize))
    requires
        from <= to <= chars.len(),
    ensures
        from <= bounds.0 <= bounds.1 <= to,
        chars@.subrange(bounds.0 as int, bounds.1 as int) == trimmed(
            chars@.subrange(from as int, to as int),
        ),
{
    let ghost field = chars@.subrange(from as int, to as int);
    let mut a: usize = from;
    while a < to && is_white_space_char(chars[a])
        invariant
            from <= a <= to <= chars.len(),
            forall|j: int| from <= j < a ==> is_white_space(chars[j]),
        decreases to - a,
    {
        a = a + 1;
    }
    let ghost rest = chars@.subrange(a as int, to as int);
    proof {
        assert forall|j: int| 0 <= j < a - from implies is_white_space(field[j]) by {
            assert(field[j] == chars[from + j]);
        }
        if a < to {
            assert(field[a - from] == chars[a as int]);
        }
        lemma_trim_start_at(field, a - from);
        assert(field.subrange(a - from, field.len() as int) =~= rest);
    }
    let mut b: usize = to;
    while b > a && is_white_space_char(chars[b - 1])
        invariant
            a <= b <= to <= chars.len(),
            forall|j: int| b <= j < to ==> is_white_space(chars[j]),
        decreases b,
    {
        b = b - 1;
    }
    proof {
        assert forall|j: int| b - a <= j < rest.len() implies is_white_space(rest[j]) by {
            assert(rest[j] == chars[a + j]);
        }
        if b > a {
            assert(rest[b - a - 1] == chars[b - 1]);
        }
        lemma_trim_end_at(rest, b - a);
        assert(rest.subrange(0, b - a) =~= chars@.subrange(a as int, b as int));
    }
    (a, b)
}

/// Adds to `names` the name in the field `chars[from..to]` of `raw`, if it holds one.
fn push_name(names: &mut Vec<String>, raw: &str, chars: &Vec<char>, from: usize, to: usize)
    requires
        chars@ == raw@,
        from <= to <= chars.len(),
    ensures
        ({
            let name = trimmed(chars@.subrange(from as int, to as int));
            final(names).deep_view() == if name.len() == 0 {
                old(names).deep_view()
            } else {
                old(names).deep_view().push(name)
            }
        }),
{
    let (a, b) = trim_bounds(chars, from, to);
    if a < b {
        let ghost before = names.deep_view();
        let name = String::from_str(raw.substring_char(a, b));
        names.push(name);
        assert(names.deep_view() =~= before.push(name@));
    } else {
        assert(chars@.subrange(a as int, b as int).len() == 0);
    }
}

/// The name of the configuration variable that holds the list of packages.
pub fn packages_variable() -> (name: &'static str)
    ensures
        name@ == "PACKAGES"@,
{
    "PACKAGES"
}

/// Reads the package names out of the configured value: the value is cut at its commas,
/// every piece is trimmed, and the pieces that are then empty are left out. A value that
/// names no package is refused.
pub fn package_names(raw: &str) -> (result: Result<Vec<String>, ConfigError>)
    ensures
        match result {
            Ok(names) => names.deep_view() == package_names_of(raw@) && names.len() > 0,
            Err(error) => error == ConfigError::Empty && package_names_of(raw@).len() == 0,
        },
        result matches Ok(names) ==> forall|i: int|
            0 <= i < names.len() ==> is_package_name(#[trigger] names[i]@),
{
    proof {
        lemma_names_are_package_names(fields(raw@));
    }
    let chars = chars_of(raw);
    let mut names: Vec<String> = Vec::new();
    let mut start: usize = 0;
    let mut i: usize = 0;
    let ghost mut closed: Seq<Seq<char>> = Seq::empty();
    assert(names.deep_view() =~= names_of(closed));
    assert(chars@.take(0).len() == 0);
    assert(chars@.subrange(0, 0) =~= Seq::<char>::empty());
    assert(seq![Seq::<char>::empty()] =~= closed.push(Seq::<char>::empty()));
    while i < chars.len()
        invariant
            chars@ == raw@,
            start <= i <= chars.len(),
            fields(chars@.take(i as int)) == closed.push(chars@.subrange(start as int, i as int)),
            names.deep_view() == names_of(closed),
        decreases chars.len() - i,
    {
        let ghost field = chars@.subrange(start as int, i as int);
        proof {
            assert(chars@.take(i + 1).drop_last() =~= chars@.take(i as int));
            assert(closed.push(field).drop_last() =~= closed);
        }
        if chars[i] == ',' {
            push_name(&mut names, raw, &chars, start, i);
            proof {
                closed = closed.push(field);
                assert(chars@.subrange(i + 1, i + 1) =~= Seq::<char>::empty());
            }
            start = i + 1;
        } else {
            assert(field.push(chars[i as int]) =~= chars@.subrange(start as int, i + 1));
        }
        i = i + 1;
    }
    let ghost last = chars@.subrange(start as int, i as int);
    proof {
        assert(chars@.take(i as int) =~= chars@);
        assert(closed.push(last).drop_last() =~= closed);
    }
    push_name(&mut names, raw, &chars, start, i);
    assert(names.deep_view() == names_of(fields(raw@)));
    assert forall|j: int| 0 <= j < names.len() implies is_package_name(#[trigger] names[j]@) by {
        assert(names.deep_view()[j] == names[j]@);
        assert(is_package_name(names_of(fields(raw@))[j]));
    }
    if names.len() == 0 {
        Err(ConfigError::Empty)
    } else {
        Ok(names)
    }
}

/// The packages to poll, from the configured value if there is one.
pub fn configured_packages(value: Option<&str>) -> (result: Result<Vec<String>, ConfigError>)
    ensures
        match result {
            Ok(names) => value matches Some(raw) && names.deep_view() == package_names_of(raw@)
                && names.len() > 0,
            Err(ConfigError::Missing) => value is None,
            Err(ConfigError::Empty) => value matches Some(raw) && package_names_of(raw@).len()
                == 0,
        },
{
    match value {
        Some(raw) => package_names(raw),
        None => Err(ConfigError::Missing),
    }
}

/// The words that report `error`.
pub open spec fn config_error_text(error: ConfigError) -> Seq<char> {
    match error {
        ConfigError::Missing => "Set PACKAGES with comma-separated package names"@,
        ConfigError::Empty => "No package names found in PACKAGES"@,
    }
}

impl ConfigError {
    /// The error in words.
    pub fn message(&self) -> (text: &'static str)
        ensures
            text@ == config_error_text(*self),
    {
        match self {
            ConfigError::Missing => "Set PACKAGES with comma-separated package names",
            ConfigError::Empty => "No package names found in PACKAGES",
        }
    }
}

} // verus!
