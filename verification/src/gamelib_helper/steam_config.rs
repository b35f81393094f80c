//! Steam's configuration as text: the section in which runners are bound to
//! applications, the block that binds one, and how a binding is read and
//! rewritten.
//!
//! The configuration is edited as text, not as a tree. The section opens
//! where its key stands, followed by white space and `{`. A block of an
//! application opens where the application's quoted identifier stands; it
//! runs on past the next `{` to the first `}` after that, and it counts only
//! if it holds the key `"name"` between the two. Braces nested in a block,
//! or written inside a value, are not told apart: the first `}` ends the
//! block.

use crate::gamelib_helper::{ConfigError, ConfigField};
use crate::text::{
    chars_of, contains, decimal, decimal_text, find_text, has_infix, is_space, is_whitespace,
    matches_at, occurs_at,
};
use vstd::prelude::*;

verus! {

/// The key of the section that binds runners to applications.
pub const SECTION_KEY: &'static str = "\"CompatToolMapping\"";

/// The key under which a block names its runner.
pub const NAME_KEY: &'static str = "\"name\"";

pub const CONFIG_KEY: &'static str = "\"config\"";

pub const PRIORITY_KEY: &'static str = "\"priority\"";

/// The priority that a written binding is given.
pub const PRIORITY: &'static str = "250";

/// The first position at or after `from` that holds no white space.
pub open spec fn blank_end(t: Seq<char>, from: int) -> int
    decreases t.len() - from,
{
    if 0 <= from < t.len() && is_space(t[from]) {
        blank_end(t, from + 1)
    } else {
        from
    }
}

/// The first position at or after `from` that holds `c`.
pub open spec fn next_of(t: Seq<char>, c: char, from: int) -> int
    decreases t.len() - from,
{
    if 0 <= from < t.len() && t[from] != c {
        next_of(t, c, from + 1)
    } else {
        from
    }
}

/// Where the `{` of the section whose key stands at `p` is looked for.
pub open spec fn section_brace(t: Seq<char>, p: int) -> int {
    blank_end(t, p + SECTION_KEY@.len())
}

/// The section opens at `p`: its key, white space if any, and `{`.
pub open spec fn opens_section(t: Seq<char>, p: int) -> bool {
    &&& occurs_at(t, SECTION_KEY@, p)
    &&& section_brace(t, p) < t.len()
    &&& t[section_brace(t, p)] == '{'
}

pub open spec fn has_section(t: Seq<char>) -> bool {
    exists|p: int| opens_section(t, p)
}

/// `p` is the first position at which the section opens.
pub open spec fn is_first_section(t: Seq<char>, p: int) -> bool {
    &&& opens_section(t, p)
    &&& forall|q: int| 0 <= q < p ==> !opens_section(t, q)
}

pub open spec fn first_section(t: Seq<char>) -> int {
    choose|p: int| is_first_section(t, p)
}

/// The `{` of the block whose key stands at `p`.
pub open spec fn block_open(t: Seq<char>, key: Seq<char>, p: int) -> int {
    next_of(t, '{', p + key.len())
}

/// The `}` of the block whose key stands at `p`.
pub open spec fn block_close(t: Seq<char>, key: Seq<char>, p: int) -> int {
    next_of(t, '}', block_open(t, key, p) + 1)
}

/// What stands between the braces of the block whose key stands at `p`.
pub open spec fn block_body(t: Seq<char>, key: Seq<char>, p: int) -> Seq<char> {
    t.subrange(block_open(t, key, p) + 1, block_close(t, key, p))
}

/// A block of `key` stands at `p`: the key, a `{` somewhere after it, a `}`
/// somewhere after that, and the key `"name"` between the two.
pub open spec fn is_block(t: Seq<char>, key: Seq<char>, p: int) -> bool {
    &&& occurs_at(t, key, p)
    &&& block_open(t, key, p) < t.len()
    &&& block_close(t, key, p) < t.len()
    &&& has_infix(block_body(t, key, p), NAME_KEY@)
}

/// A block of `key` stands at `from` or after it.
pub open spec fn has_block(t: Seq<char>, key: Seq<char>, from: int) -> bool {
    exists|p: int| from <= p && is_block(t, key, p)
}

/// `p` is the first position at or after `from` at which a block of `key`
/// stands.
pub open spec fn is_first_block(t: Seq<char>, key: Seq<char>, from: int, p: int) -> bool {
    &&& from <= p
    &&& is_block(t, key, p)
    &&& forall|q: int| from <= q < p ==> !is_block(t, key, q)
}

pub open spec fn first_block(t: Seq<char>, key: Seq<char>, from: int) -> int {
    choose|p: int| is_first_block(t, key, from, p)
}

/// `s` between double quotes.
pub open spec fn quoted(s: Seq<char>) -> Seq<char> {
    seq!['"'] + s + seq!['"']
}

/// The key of the block of the application `app_id`.
pub open spec fn block_key(app_id: u32) -> Seq<char> {
    quoted(decimal_text(app_id as nat))
}

/// `i` is the first position at which `needle` stands in `hay`.
pub open spec fn is_first_occurrence(hay: Seq<char>, needle: Seq<char>, i: int) -> bool {
    &&& occurs_at(hay, needle, i)
    &&& forall|j: int| 0 <= j < i ==> !occurs_at(hay, needle, j)
}

pub open spec fn first_occurrence(hay: Seq<char>, needle: Seq<char>) -> int {
    choose|i: int| is_first_occurrence(hay, needle, i)
}

/// The runner that the body of a block names: the quoted text that follows
/// the first `"name"` and white space.
pub open spec fn name_in(body: Seq<char>) -> Result<Seq<char>, ConfigError> {
    if !has_infix(body, NAME_KEY@) {
        Err(ConfigError::NotFound)
    } else {
        let value = blank_end(body, first_occurrence(body, NAME_KEY@) + NAME_KEY@.len());
        if value < body.len() && body[value] == '"' && next_of(body, '"', value + 1) < body.len() {
            Ok(body.subrange(value + 1, next_of(body, '"', value + 1)))
        } else {
            Err(ConfigError::MalformedStructure(ConfigField::Name))
        }
    }
}

/// Where the blocks of the section of `t` begin: behind its `{`.
pub open spec fn section_start(t: Seq<char>) -> int {
    section_brace(t, first_section(t)) + 1
}

/// The runner that the configuration `t` binds to the application whose
/// block has the key `key`: the one that the first block of `key` in the
/// section names.
pub open spec fn binding_under(t: Seq<char>, key: Seq<char>) -> Result<Seq<char>, ConfigError> {
    if !has_section(t) {
        Err(ConfigError::NotFound)
    } else if !has_block(t, key, section_start(t)) {
        Err(ConfigError::NotFound)
    } else {
        name_in(block_body(t, key, first_block(t, key, section_start(t))))
    }
}

/// The runner that the configuration `t` binds to the application `app_id`.
pub open spec fn binding_of(t: Seq<char>, app_id: u32) -> Result<Seq<char>, ConfigError> {
    binding_under(t, block_key(app_id))
}

/// `t` without its first block of `key`.
pub open spec fn without_block(t: Seq<char>, key: Seq<char>) -> Seq<char> {
    if has_block(t, key, 0) {
        let p = first_block(t, key, 0);
        t.subrange(0, p) + t.subrange(block_close(t, key, p) + 1, t.len() as int)
    } else {
        t
    }
}

/// `t` with `opening` in place of the opening of its section; `t` itself
/// where it has no section.
pub open spec fn with_opening(t: Seq<char>, opening: Seq<char>) -> Seq<char> {
    if has_section(t) {
        t.subrange(0, first_section(t)) + opening + t.subrange(section_start(t), t.len() as int)
    } else {
        t
    }
}

/// A line break and `n` spaces.
pub open spec fn indent(n: nat) -> Seq<char> {
    seq!['\n'] + Seq::new(n, |i: int| ' ')
}

/// The two tabs between a key and its value.
pub open spec fn tabs() -> Seq<char> {
    seq!['\t', '\t']
}

/// What stands between the braces of the block that binds `runner`, up to
/// the closing brace: the name, an empty `config` and the priority.
pub open spec fn written_body(runner: Seq<char>) -> Seq<char> {
    indent(24) + NAME_KEY@ + tabs() + quoted(runner) + indent(24) + CONFIG_KEY@ + tabs() + quoted(
        Seq::empty(),
    ) + indent(24) + PRIORITY_KEY@ + tabs() + quoted(PRIORITY@) + indent(20)
}

/// The block that binds `runner` to the application `app_id`.
pub open spec fn written_block(app_id: u32, runner: Seq<char>) -> Seq<char> {
    block_key(app_id) + indent(20) + seq!['{'] + written_body(runner) + seq!['}']
}

/// The opening of the section, followed by the block that binds `runner` to
/// the application `app_id`.
pub open spec fn binding_block(app_id: u32, runner: Seq<char>) -> Seq<char> {
    SECTION_KEY@ + indent(16) + seq!['{'] + indent(20) + written_block(app_id, runner) + seq![
        '\n',
    ]
}

/// The configuration `content` with `runner` bound to `app_id`: the first
/// block of `app_id` is taken out, wherever it stands, then the new block is
/// put in at the opening of the section. Where `content` has no section,
/// nothing is put in.
pub open spec fn rebound(content: Seq<char>, app_id: u32, runner: Seq<char>) -> Seq<char> {
    with_opening(without_block(content, block_key(app_id)), binding_block(app_id, runner))
}

/// What `blank_end` gives: a position at or after `from`, with white space
/// alone in between and none at the position itself.
pub proof fn lemma_blank_end(t: Seq<char>, from: int)
    requires
        0 <= from <= t.len(),
    ensures
        from <= blank_end(t, from) <= t.len(),
        forall|i: int| from <= i < blank_end(t, from) ==> is_space(#[trigger] t[i]),
        blank_end(t, from) < t.len() ==> !is_space(t[blank_end(t, from)]),
    decreases t.len() - from,
{
    if from < t.len() && is_space(t[from]) {
        lemma_blank_end(t, from + 1);
    }
}

/// The position that follows a run of white space is what `blank_end` gives.
pub proof fn lemma_blank_end_is(t: Seq<char>, from: int, j: int)
    requires
        0 <= from <= j <= t.len(),
        forall|i: int| from <= i < j ==> is_space(#[trigger] t[i]),
        j < t.len() ==> !is_space(t[j]),
    ensures
        blank_end(t, from) == j,
    decreases j - from,
{
    if from < j {
        lemma_blank_end_is(t, from + 1, j);
    }
}

/// What `next_of` gives: a position at or after `from`, with no `c` in
/// between and `c` at the position itself, if it is one of `t`.
pub proof fn lemma_next_of(t: Seq<char>, c: char, from: int)
    requires
        0 <= from <= t.len(),
    ensures
        from <= next_of(t, c, from) <= t.len(),
        forall|i: int| from <= i < next_of(t, c, from) ==> #[trigger] t[i] != c,
        next_of(t, c, from) < t.len() ==> t[next_of(t, c, from)] == c,
    decreases t.len() - from,
{
    if from < t.len() && t[from] != c {
        lemma_next_of(t, c, from + 1);
    }
}

/// The first position of `c` after a run without it is what `next_of` gives.
pub proof fn lemma_next_of_is(t: Seq<char>, c: char, from: int, j: int)
    requires
        0 <= from <= j <= t.len(),
        forall|i: int| from <= i < j ==> #[trigger] t[i] != c,
        j < t.len() ==> t[j] == c,
    ensures
        next_of(t, c, from) == j,
    decreases j - from,
{
    if from < j {
        lemma_next_of_is(t, c, from + 1, j);
    }
}

/// The section opens first at one position only.
pub proof fn lemma_first_section(t: Seq<char>, p: int)
    requires
        is_first_section(t, p),
    ensures
        has_section(t),
        first_section(t) == p,
{
    let q = first_section(t);
    assert(is_first_section(t, q));
    assert(occurs_at(t, SECTION_KEY@, p) && occurs_at(t, SECTION_KEY@, q));
}

/// A block of `key` stands first at one position only.
pub proof fn lemma_first_block(t: Seq<char>, key: Seq<char>, from: int, p: int)
    requires
        is_first_block(t, key, from, p),
    ensures
        has_block(t, key, from),
        first_block(t, key, from) == p,
{
    let q = first_block(t, key, from);
    assert(is_first_block(t, key, from, q));
}

/// `needle` stands first in `hay` at one position only.
pub proof fn lemma_first_occurrence(hay: Seq<char>, needle: Seq<char>, i: int)
    requires
        is_first_occurrence(hay, needle, i),
    ensures
        has_infix(hay, needle),
        first_occurrence(hay, needle) == i,
{
    let j = first_occurrence(hay, needle);
    assert(is_first_occurrence(hay, needle, j));
}

/// The first position at or after `from` that holds no white space.
fn skip_blank(t: &Vec<char>, from: usize) -> (r: usize)
    requires
        from <= t.len(),
    ensures
        r == blank_end(t@, from as int),
        from <= r <= t.len(),
{
    let mut i: usize = from;
    while i < t.len() && is_whitespace(t[i])
        invariant
            from <= i <= t.len(),
            forall|k: int| from <= k < i ==> is_space(#[trigger] t@[k]),
        decreases t.len() - i,
    {
        i += 1;
    }
    proof {
        lemma_blank_end_is(t@, from as int, i as int);
    }
    i
}

/// The first position at or after `from` that holds `c`.
fn skip_to(t: &Vec<char>, c: char, from: usize) -> (r: usize)
    requires
        from <= t.len(),
    ensures
        r == next_of(t@, c, from as int),
        from <= r <= t.len(),
{
    let mut i: usize = from;
    while i < t.len() && t[i] != c
        invariant
            from <= i <= t.len(),
            forall|k: int| from <= k < i ==> #[trigger] t@[k] != c,
        decreases t.len() - i,
    {
        i += 1;
    }
    proof {
        lemma_next_of_is(t@, c, from as int, i as int);
    }
    i
}

/// Where the section opens first, and where its `{` stands.
fn find_section(t: &Vec<char>) -> (r: Option<(usize, usize)>)
    ensures
        r is Some <==> has_section(t@),
        r matches Some(found) ==> is_first_section(t@, found.0 as int) && found.1 == section_brace(
            t@,
            found.0 as int,
        ) && found.0 < found.1 < t.len(),
{
    let key = chars_of(SECTION_KEY);
    proof {
        reveal_strlit("\"CompatToolMapping\"");
    }
    if key.len() > t.len() {
        return None;
    }
    let last: usize = t.len() - key.len();
    let mut p: usize = 0;
    loop
        invariant
            p <= last,
            last == t.len() - key.len(),
            key@ == SECTION_KEY@,
            key@.len() == 19,
            forall|q: int| 0 <= q < p ==> !opens_section(t@, q),
        decreases last - p,
    {
        if matches_at(t, &key, p) {
            let brace = skip_blank(t, p + key.len());
            if brace < t.len() && t[brace] == '{' {
                proof {
                    lemma_first_section(t@, p as int);
                }
                return Some((p, brace));
            }
        }
        if p == last {
            return None;
        }
        p += 1;
    }
}

/// Where a block of `key` stands first at or after `from`, where its `{`
/// stands and where its `}`. `t` holds the characters of `content`.
fn find_block(content: &str, t: &Vec<char>, key: &Vec<char>, from: usize) -> (r: Option<
    (usize, usize, usize),
>)
    requires
        t@ == content@,
    ensures
        r is Some <==> has_block(t@, key@, from as int),
        r matches Some(found) ==> is_first_block(t@, key@, from as int, found.0 as int) && found.1
            == block_open(t@, key@, found.0 as int) && found.2 == block_close(
            t@,
            key@,
            found.0 as int,
        ) && from <= found.0 <= found.1 < found.2 < t.len(),
{
    if key.len() > t.len() || from > t.len() - key.len() {
        return None;
    }
    let last: usize = t.len() - key.len();
    let mut p: usize = from;
    loop
        invariant
            from <= p <= last,
            last == t.len() - key.len(),
            t@ == content@,
            forall|q: int| from <= q < p ==> !is_block(t@, key@, q),
        decreases last - p,
    {
        if matches_at(t, key, p) {
            let open = skip_to(t, '{', p + key.len());
            if open < t.len() {
                let close = skip_to(t, '}', open + 1);
                if close < t.len() {
                    let body = content.substring_char(open + 1, close);
                    if contains(body, NAME_KEY) {
                        proof {
                            lemma_first_block(t@, key@, from as int, p as int);
                        }
                        return Some((p, open, close));
                    }
                }
            }
        }
        if p == last {
            return None;
        }
        p += 1;
    }
}

/// `content` without its first block of `key`.
pub fn remove_block(content: &str, key: &str) -> (r: String)
    ensures
        r@ == without_block(content@, key@),
{
    let t = chars_of(content);
    let k = chars_of(key);
    match find_block(content, &t, &k, 0) {
        Some(found) => {
            let mut out = content.substring_char(0, found.0).to_owned();
            out.append(content.substring_char(found.2 + 1, t.len()));
            out
        },
        None => content.to_owned(),
    }
}

/// `content` with `opening` in place of the opening of its section.
pub fn replace_opening(content: &str, opening: &str) -> (r: String)
    ensures
        r@ == with_opening(content@, opening@),
{
    let t = chars_of(content);
    match find_section(&t) {
        Some(found) => {
            let mut out = content.substring_char(0, found.0).to_owned();
            out.append(opening);
            out.append(content.substring_char(found.1 + 1, t.len()));
            out
        },
        None => content.to_owned(),
    }
}

/// Adds a line break and `n` spaces to `s`.
pub fn push_indent(s: &mut String, n: usize)
    ensures
        final(s)@ == old(s)@ + indent(n as nat),
{
    let ghost before = s@;
    proof {
        reveal_strlit("\n");
        reveal_strlit(" ");
    }
    s.append("\n");
    let mut i: usize = 0;
    assert(s@ =~= before + (seq!['\n'] + Seq::new(0, |k: int| ' ')));
    while i < n
        invariant
            i <= n,
            s@ == before + (seq!['\n'] + Seq::new(i as nat, |k: int| ' ')),
        decreases n - i,
    {
        proof {
            reveal_strlit(" ");
        }
        s.append(" ");
        assert(s@ =~= before + (seq!['\n'] + Seq::new((i + 1) as nat, |k: int| ' ')));
        i += 1;
    }
}

/// Adds `value` between double quotes to `s`.
pub fn push_quoted(s: &mut String, value: &str)
    ensures
        final(s)@ == old(s)@ + quoted(value@),
{
    let ghost before = s@;
    proof {
        reveal_strlit("\"");
    }
    s.append("\"");
    s.append(value);
    s.append("\"");
    assert(s@ =~= before + quoted(value@));
}

/// Adds a key, two tabs and the quoted `value` to `s`, on a line of its own.
fn push_pair(s: &mut String, key: &str, value: &str)
    ensures
        final(s)@ == old(s)@ + indent(24) + key@ + tabs() + quoted(value@),
{
    let ghost before = s@;
    proof {
        reveal_strlit("\t\t");
    }
    push_indent(s, 24);
    s.append(key);
    s.append("\t\t");
    assert("\t\t"@ =~= tabs());
    push_quoted(s, value);
}

/// The key of the block of the application `app_id`.
pub fn key_text(app_id: u32) -> (r: String)
    ensures
        r@ == block_key(app_id),
{
    let mut s = String::new();
    push_quoted(&mut s, decimal(app_id).as_str());
    assert(s@ =~= block_key(app_id));
    s
}

/// The opening of the section, followed by the block that binds `runner` to
/// the application `app_id`.
pub fn block_text(app_id: u32, runner: &str) -> (r: String)
    ensures
        r@ == binding_block(app_id, runner@),
{
    proof {
        reveal_strlit("{");
        reveal_strlit("}");
        reveal_strlit("\n");
        reveal_strlit("");
    }
    let mut s = SECTION_KEY.to_owned();
    push_indent(&mut s, 16);
    s.append("{");
    push_indent(&mut s, 20);
    s.append(key_text(app_id).as_str());
    push_indent(&mut s, 20);
    s.append("{");
    let ghost head = s@;
    assert(head =~= SECTION_KEY@ + indent(16) + seq!['{'] + indent(20) + block_key(app_id) + indent(
        20,
    ) + seq!['{']);
    push_pair(&mut s, NAME_KEY, runner);
    push_pair(&mut s, CONFIG_KEY, "");
    push_pair(&mut s, PRIORITY_KEY, PRIORITY);
    push_indent(&mut s, 20);
    assert(""@ =~= Seq::<char>::empty());
    assert(s@ =~= head + written_body(runner@));
    s.append("}");
    s.append("\n");
    assert(s@ =~= binding_block(app_id, runner@));
    s
}

/// The configuration `content` with `runner` bound to `app_id`.
pub fn rebind(content: &str, app_id: u32, runner: &str) -> (r: String)
    ensures
        r@ == rebound(content@, app_id, runner@),
{
    let without = remove_block(content, key_text(app_id).as_str());
    replace_opening(without.as_str(), block_text(app_id, runner).as_str())
}

/// The runner that the body of a block names.
pub fn name_value(body: &str) -> (r: Result<String, ConfigError>)
    ensures
        match name_in(body@) {
            Ok(name) => (r matches Ok(s) && s@ == name),
            Err(e) => r == Err::<String, ConfigError>(e),
        },
{
    let t = chars_of(body);
    proof {
        reveal_strlit("\"name\"");
    }
    match find_text(body, NAME_KEY) {
        None => Err(ConfigError::NotFound),
        Some(at) => {
            proof {
                lemma_first_occurrence(body@, NAME_KEY@, at as int);
            }
            let value = skip_blank(&t, at + 6);
            if value < t.len() && t[value] == '"' {
                let end = skip_to(&t, '"', value + 1);
                if end < t.len() {
                    Ok(body.substring_char(value + 1, end).to_owned())
                } else {
                    Err(ConfigError::MalformedStructure(ConfigField::Name))
                }
            } else {
                Err(ConfigError::MalformedStructure(ConfigField::Name))
            }
        },
    }
}

/// The runner that the configuration `content` binds to the application
/// `app_id`: the one that the first block of the application in the section
/// names. There is none where the configuration has no section or the
/// section no such block.
pub fn read_binding(content: &str, app_id: u32) -> (r: Result<String, ConfigError>)
    ensures
        match binding_of(content@, app_id) {
            Ok(name) => (r matches Ok(s) && s@ == name),
            Err(e) => r == Err::<String, ConfigError>(e),
        },
{
    let t = chars_of(content);
    let key = key_text(app_id);
    let k = chars_of(key.as_str());
    match find_section(&t) {
        None => Err(ConfigError::NotFound),
        Some(section) => match find_block(content, &t, &k, section.1 + 1) {
            None => Err(ConfigError::NotFound),
            Some(block) => name_value(content.substring_char(block.1 + 1, block.2)),
        },
    }
}

} // verus!
