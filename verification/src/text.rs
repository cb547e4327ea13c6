//! Text as sequences of characters: comparing, trimming, the placeholder
//! syntax `{{name}}`, and stat identifiers of the form `entity:stat`.

use vstd::prelude::*;

verus! {

/// Whether a character has the Unicode property `White_Space`.
pub open spec fn is_space(c: char) -> bool {
    let u = c as u32;
    ||| 0x09 <= u <= 0x0D
    ||| u == 0x20
    ||| u == 0x85
    ||| u == 0xA0
    ||| u == 0x1680
    ||| 0x2000 <= u <= 0x200A
    ||| u == 0x2028
    ||| u == 0x2029
    ||| u == 0x202F
    ||| u == 0x205F
    ||| u == 0x3000
}

/// The text without its leading white space.
pub open spec fn trim_start(s: Seq<char>) -> Seq<char>
    decreases s.len(),
{
    if s.len() > 0 && is_space(s.first()) {
        trim_start(s.drop_first())
    } else {
        s
    }
}

/// The text without its trailing white space.
pub open spec fn trim_end(s: Seq<char>) -> Seq<char>
    decreases s.len(),
{
    if s.len() > 0 && is_space(s.last()) {
        trim_end(s.drop_last())
    } else {
        s
    }
}

/// The text without white space at either end.
pub open spec fn trim(s: Seq<char>) -> Seq<char> {
    trim_end(trim_start(s))
}

/// Whether a text is written as a placeholder: it opens with two left
/// braces and closes with two right braces that do not overlap them.
pub open spec fn is_placeholder(s: Seq<char>) -> bool {
    &&& s.len() >= 4
    &&& s[0] == '{'
    &&& s[1] == '{'
    &&& s[s.len() - 2] == '}'
    &&& s[s.len() - 1] == '}'
}

/// The name that a placeholder refers to: what stands between the braces,
/// trimmed.
pub open spec fn placeholder_name(s: Seq<char>) -> Seq<char>
    recommends
        is_placeholder(s),
{
    trim(s.subrange(2, s.len() - 2))
}

/// The number of characters before the first colon, or the length of the
/// text if it holds none.
pub open spec fn before_colon(s: Seq<char>) -> nat
    decreases s.len(),
{
    if s.len() == 0 || s.first() == ':' {
        0
    } else {
        1 + before_colon(s.drop_first())
    }
}

/// The entity that a stat identifier belongs to: what stands before its
/// first colon. An identifier without a colon is global, and its entity is
/// empty.
pub open spec fn entity_of(stat_name: Seq<char>) -> Seq<char> {
    let n = before_colon(stat_name);
    if n < stat_name.len() {
        stat_name.take(n as int)
    } else {
        Seq::empty()
    }
}

/// The stat type of a stat identifier: what stands behind its first colon.
/// An identifier without a colon is global, and is its own stat type.
pub open spec fn stat_type_of(stat_name: Seq<char>) -> Seq<char> {
    let n = before_colon(stat_name);
    if n < stat_name.len() {
        stat_name.skip(n as int + 1)
    } else {
        stat_name
    }
}

/// The identifier of an entity's stat: the entity, a colon, the stat type.
pub open spec fn entity_stat(entity_id: Seq<char>, stat_type: Seq<char>) -> Seq<char> {
    entity_id + seq![':'] + stat_type
}

/// A stat name as seen from an entity: the entity's own stat of that name,
/// or the name itself where the entity is empty.
pub open spec fn scoped(entity_id: Seq<char>, name: Seq<char>) -> Seq<char> {
    if entity_id.len() > 0 {
        entity_stat(entity_id, name)
    } else {
        name
    }
}

/// The texts of a list, each as a sequence of characters.
pub open spec fn texts(list: Seq<String>) -> Seq<Seq<char>> {
    list.map_values(|text: String| text@)
}

/// Names as seen from an entity, each scoped as `scoped` says.
pub open spec fn scoped_all(entity_id: Seq<char>, names: Seq<Seq<char>>) -> Seq<Seq<char>> {
    names.map_values(|name: Seq<char>| scoped(entity_id, name))
}

/// A text that neither begins nor ends with white space is its own
/// trimmed form.
pub proof fn lemma_trim_plain(s: Seq<char>)
    requires
        s.len() > 0 ==> !is_space(s.first()) && !is_space(s.last()),
    ensures
        trim(s) == s,
{
}

/// Counting up to the first colon passes over a text that holds none.
pub proof fn lemma_before_colon_concat(head: Seq<char>, tail: Seq<char>)
    requires
        !head.contains(':'),
    ensures
        before_colon(head + tail) == head.len() + before_colon(tail),
    decreases head.len(),
{
    if head.len() == 0 {
        assert(head + tail == tail);
    } else {
        assert(head.contains(head[0]));
        assert((head + tail).drop_first() == head.drop_first() + tail);
        assert forall|c: char| head.drop_first().contains(c) implies head.contains(c) by {
            let i = choose|i: int| 0 <= i < head.drop_first().len() && head.drop_first()[i] == c;
            assert(head[i + 1] == c);
        }
        lemma_before_colon_concat(head.drop_first(), tail);
    }
}

/// The stat of an entity belongs to that entity, as long as the entity's
/// identifier holds no colon.
pub proof fn lemma_entity_of_entity_stat(entity_id: Seq<char>, stat_type: Seq<char>)
    requires
        !entity_id.contains(':'),
    ensures
        entity_of(entity_stat(entity_id, stat_type)) == entity_id,
{
    let tail = seq![':'] + stat_type;
    assert(entity_stat(entity_id, stat_type) == entity_id + tail);
    lemma_before_colon_concat(entity_id, tail);
    assert(before_colon(tail) == 0);
    assert((entity_id + tail).take(entity_id.len() as int) == entity_id);
}

/// The number of characters before the first colon is no more than the
/// text holds, and where it is less, a colon stands there.
pub proof fn lemma_before_colon(s: Seq<char>)
    ensures
        before_colon(s) <= s.len(),
        before_colon(s) < s.len() ==> s[before_colon(s) as int] == ':',
    decreases s.len(),
{
    if s.len() > 0 && s.first() != ':' {
        lemma_before_colon(s.drop_first());
    }
}

/// An identifier with a colon is the stat of its entity and its stat type:
/// taken apart and put together, it is itself again.
pub proof fn lemma_entity_and_stat_type(stat_name: Seq<char>)
    requires
        stat_name.contains(':'),
    ensures
        entity_stat(entity_of(stat_name), stat_type_of(stat_name)) == stat_name,
{
    lemma_before_colon(stat_name);
    let n = before_colon(stat_name);
    if n >= stat_name.len() {
        let i = choose|i: int| 0 <= i < stat_name.len() && stat_name[i] == ':';
        lemma_before_colon_bound(stat_name, i);
    }
    assert(entity_stat(entity_of(stat_name), stat_type_of(stat_name)) =~= stat_name);
}

/// The first colon stands no later than any colon.
pub proof fn lemma_before_colon_bound(s: Seq<char>, i: int)
    requires
        0 <= i < s.len(),
        s[i] == ':',
    ensures
        before_colon(s) <= i,
    decreases i,
{
    if i > 0 && s.first() != ':' {
        lemma_before_colon_bound(s.drop_first(), i - 1);
    }
}

/// The stat of an entity has the stat type it was made with, as long as
/// the entity's identifier holds no colon.
pub proof fn lemma_stat_type_of_entity_stat(entity_id: Seq<char>, stat_type: Seq<char>)
    requires
        !entity_id.contains(':'),
    ensures
        stat_type_of(entity_stat(entity_id, stat_type)) == stat_type,
{
    let tail = seq![':'] + stat_type;
    assert(entity_stat(entity_id, stat_type) == entity_id + tail);
    lemma_before_colon_concat(entity_id, tail);
    assert(before_colon(tail) == 0);
    assert((entity_id + tail).skip(entity_id.len() as int + 1) == stat_type);
}

/// A name without a colon is global: it belongs to the empty entity, and
/// the names it refers to stay as they are written.
pub proof fn lemma_entity_of_global(stat_name: Seq<char>, name: Seq<char>)
    requires
        !stat_name.contains(':'),
    ensures
        entity_of(stat_name) == Seq::<char>::empty(),
        scoped(entity_of(stat_name), name) == name,
{
    lemma_before_colon_concat(stat_name, Seq::<char>::empty());
    assert(stat_name + Seq::<char>::empty() == stat_name);
}

/// A name seen from an entity belongs to that entity, as long as the
/// entity's identifier is not empty and holds no colon. Names seen from
/// different entities differ.
pub proof fn lemma_scoped_stays_in_entity(entity_id: Seq<char>, name: Seq<char>)
    requires
        entity_id.len() > 0,
        !entity_id.contains(':'),
    ensures
        entity_of(scoped(entity_id, name)) == entity_id,
{
    lemma_entity_of_entity_stat(entity_id, name);
}

/// Seen from the empty entity, names stay as they are written.
pub proof fn lemma_scoped_all_global(names: Seq<Seq<char>>)
    ensures
        scoped_all(Seq::<char>::empty(), names) == names,
{
    assert(scoped_all(Seq::<char>::empty(), names) =~= names);
}

/// The characters of a text, in order.
pub fn to_chars(text: &str) -> (chars: Vec<char>)
    ensures
        chars@ == text@,
{
    let mut chars: Vec<char> = Vec::new();
    for c in it: text.chars()
        invariant
            it.seq() == text@,
            chars@ == it.seq().take(it.index() as int),
    {
        chars.push(c);
    }
    chars
}

/// Whether two texts hold the same characters.
pub fn same_text(a: &str, b: &str) -> (same: bool)
    ensures
        same == (a@ == b@),
{
    let x = to_chars(a);
    let y = to_chars(b);
    if x.len() != y.len() {
        return false;
    }
    let mut i: usize = 0;
    while i < x.len()
        invariant
            x@ == a@,
            y@ == b@,
            x.len() == y.len(),
            i <= x.len(),
            x@.take(i as int) == y@.take(i as int),
        decreases x.len() - i,
    {
        if x[i] != y[i] {
            return false;
        }
        assert(x@.take(i + 1) == x@.take(i as int).push(x@[i as int]));
        assert(y@.take(i + 1) == y@.take(i as int).push(y@[i as int]));
        i += 1;
    }
    assert(x@ == x@.take(i as int));
    assert(y@ == y@.take(i as int));
    true
}

/// Whether a character is white space.
pub fn char_is_space(c: char) -> (space: bool)
    ensures
        space == is_space(c),
{
    let u: u32 = c as u32;
    (0x09 <= u && u <= 0x0D) || u == 0x20 || u == 0x85 || u == 0xA0 || u == 0x1680 || (0x2000 <= u
        && u <= 0x200A) || u == 0x2028 || u == 0x2029 || u == 0x202F || u == 0x205F || u == 0x3000
}

/// Trimming cuts a range out of the text: removing a leading character that
/// is white space does not change the result.
proof fn lemma_trim_start_step(s: Seq<char>, lo: int, hi: int)
    requires
        0 <= lo < hi <= s.len(),
        is_space(s[lo]),
    ensures
        trim_start(s.subrange(lo, hi)) == trim_start(s.subrange(lo + 1, hi)),
{
    assert(s.subrange(lo, hi).drop_first() == s.subrange(lo + 1, hi));
}

proof fn lemma_trim_end_step(s: Seq<char>, lo: int, hi: int)
    requires
        0 <= lo < hi <= s.len(),
        is_space(s[hi - 1]),
    ensures
        trim_end(s.subrange(lo, hi)) == trim_end(s.subrange(lo, hi - 1)),
{
    assert(s.subrange(lo, hi).drop_last() == s.subrange(lo, hi - 1));
}

/// The bounds of the trimmed part of `chars[from..to]`.
fn trim_bounds(chars: &Vec<char>, from: usize, to: usize) -> (bounds: (usize, usize))
    requires
        from <= to <= chars.len(),
    ensures
        from <= bounds.0 <= bounds.1 <= to,
        chars@.subrange(bounds.0 as int, bounds.1 as int) == trim(
            chars@.subrange(from as int, to as int),
        ),
{
    let mut lo: usize = from;
    while lo < to && char_is_space(chars[lo])
        invariant
            from <= lo <= to <= chars.len(),
            trim_start(chars@.subrange(from as int, to as int)) == trim_start(
                chars@.subrange(lo as int, to as int),
            ),
        decreases to - lo,
    {
        proof {
            lemma_trim_start_step(chars@, lo as int, to as int);
        }
        lo += 1;
    }
    assert(trim_start(chars@.subrange(lo as int, to as int)) == chars@.subrange(
        lo as int,
        to as int,
    ));
    let mut hi: usize = to;
    while lo < hi && char_is_space(chars[hi - 1])
        invariant
            lo <= hi <= to <= chars.len(),
            trim_end(chars@.subrange(lo as int, to as int)) == trim_end(
                chars@.subrange(lo as int, hi as int),
            ),
        decreases hi - lo,
    {
        proof {
            lemma_trim_end_step(chars@, lo as int, hi as int);
        }
        hi -= 1;
    }
    assert(trim_end(chars@.subrange(lo as int, hi as int)) == chars@.subrange(
        lo as int,
        hi as int,
    ));
    (lo, hi)
}

/// The name inside a placeholder, or `None` where the text is not written
/// as one.
pub fn placeholder(text: &str) -> (name: Option<String>)
    ensures
        name is Some == is_placeholder(text@),
        name matches Some(n) ==> n@ == placeholder_name(text@),
{
    let chars = to_chars(text);
    let n = chars.len();
    if n >= 4 && chars[0] == '{' && chars[1] == '{' && chars[n - 2] == '}' && chars[n - 1] == '}' {
        let (lo, hi) = trim_bounds(&chars, 2, n - 2);
        Some(text.substring_char(lo, hi).to_owned())
    } else {
        None
    }
}

proof fn lemma_before_colon_step(s: Seq<char>, i: int)
    requires
        0 <= i < s.len(),
        s[i] != ':',
        before_colon(s) == i + before_colon(s.skip(i)),
    ensures
        before_colon(s) == i + 1 + before_colon(s.skip(i + 1)),
{
    assert(s.skip(i).drop_first() == s.skip(i + 1));
}

/// The number of characters before the first colon, and the length of the
/// text.
fn colon_position(stat_name: &str) -> (found: (usize, usize))
    ensures
        found.0 == before_colon(stat_name@),
        found.1 == stat_name@.len(),
        found.0 <= found.1,
{
    let chars = to_chars(stat_name);
    let mut i: usize = 0;
    assert(chars@.skip(0) == chars@);
    while i < chars.len() && chars[i] != ':'
        invariant
            i <= chars.len(),
            before_colon(chars@) == i + before_colon(chars@.skip(i as int)),
        decreases chars.len() - i,
    {
        proof {
            lemma_before_colon_step(chars@, i as int);
        }
        i += 1;
    }
    assert(before_colon(chars@.skip(i as int)) == 0);
    (i, chars.len())
}

/// The entity that a stat identifier belongs to.
pub fn entity_id_of(stat_name: &str) -> (entity_id: String)
    ensures
        entity_id@ == entity_of(stat_name@),
{
    let (at, len) = colon_position(stat_name);
    if at < len {
        stat_name.substring_char(0, at).to_owned()
    } else {
        String::new()
    }
}

/// The stat type of a stat identifier.
pub fn stat_type_of_name(stat_name: &str) -> (stat_type: String)
    ensures
        stat_type@ == stat_type_of(stat_name@),
{
    let (at, len) = colon_position(stat_name);
    if at < len {
        stat_name.substring_char(at + 1, len).to_owned()
    } else {
        stat_name.to_owned()
    }
}

/// The identifier of an entity's stat.
pub fn join_entity_stat(entity_id: &str, stat_type: &str) -> (id: String)
    ensures
        id@ == entity_stat(entity_id@, stat_type@),
{
    let mut id = entity_id.to_owned();
    proof {
        reveal_strlit(":");
    }
    id.append(":");
    id.append(stat_type);
    assert(":"@ == seq![':']);
    id
}

/// A stat name as seen from an entity.
pub fn scope_name(entity_id: &str, name: &str) -> (id: String)
    ensures
        id@ == scoped(entity_id@, name@),
{
    if entity_id.is_empty() {
        name.to_owned()
    } else {
        join_entity_stat(entity_id, name)
    }
}

} // verus!
