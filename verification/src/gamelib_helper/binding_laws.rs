//! What holds of reading a binding back from a configuration that was
//! rewritten.

use crate::gamelib_helper::steam_config::{
    binding_block, binding_of, block_body, block_close, block_key, block_open, first_block,
    first_section, has_block, has_section, indent, is_block, is_first_section, lemma_blank_end,
    lemma_blank_end_is, lemma_first_block, lemma_first_occurrence, lemma_first_section,
    lemma_next_of, lemma_next_of_is, name_in, next_of, opens_section, quoted, rebound,
    section_brace, section_start, tabs, with_opening, without_block, written_block, written_body,
    CONFIG_KEY, NAME_KEY, PRIORITY, PRIORITY_KEY, SECTION_KEY,
};
use crate::gamelib_helper::steam_game::{binding_holds, bound_name, is_resolved};
use crate::gamelib_helper::{ConfigError, Runner};
use crate::text::{is_space, occurs_at};
use vstd::prelude::*;

verus! {

/// No character of `s` is `c`.
pub open spec fn free_of(s: Seq<char>, c: char) -> bool {
    forall|i: int| 0 <= i < s.len() ==> #[trigger] s[i] != c
}

/// What the body of a written block holds up to its first `}`: all of it,
/// where the runner's name holds none.
pub open spec fn kept_body(runner: Seq<char>) -> Seq<char> {
    written_body(runner).take(next_of(written_body(runner), '}', 0))
}

proof fn lemma_section_key()
    ensures
        SECTION_KEY@.len() == 19,
        forall|i: int|
            0 <= i < 19 ==> !is_space(#[trigger] SECTION_KEY@[i]) && SECTION_KEY@[i] != '{',
{
    reveal_strlit("\"CompatToolMapping\"");
    let k = SECTION_KEY@;
    assert forall|i: int| 0 <= i < 19 implies !is_space(#[trigger] k[i]) && k[i] != '{' by {}
}

proof fn lemma_indent(n: nat)
    ensures
        indent(n).len() == n + 1,
        forall|i: int|
            0 <= i < n + 1 ==> is_space(#[trigger] indent(n)[i]) && indent(n)[i] != '{' && indent(
                n,
            )[i] != '}' && indent(n)[i] != '"',
{
}

/// A configuration that has a section has a first one.
pub proof fn lemma_section_has_first(t: Seq<char>)
    requires
        has_section(t),
    ensures
        is_first_section(t, first_section(t)),
        0 <= first_section(t),
        first_section(t) + 19 <= section_brace(t, first_section(t)) < t.len(),
{
    let p = choose|p: int| opens_section(t, p);
    let m = least_section(t, p);
    lemma_first_section(t, m);
    lemma_section_key();
    lemma_blank_end(t, m + 19);
}

proof fn least_section(t: Seq<char>, p: int) -> (m: int)
    requires
        opens_section(t, p),
    ensures
        is_first_section(t, m),
    decreases p,
{
    if exists|q: int| 0 <= q < p && opens_section(t, q) {
        let q = choose|q: int| 0 <= q < p && opens_section(t, q);
        least_section(t, q)
    } else {
        p
    }
}

proof fn lemma_key(app_id: u32)
    ensures
        block_key(app_id).len() >= 2,
        block_key(app_id)[0] == '"',
{
}

/// Where the parts of a written body stand.
proof fn lemma_body_layout(runner: Seq<char>)
    ensures
        written_body(runner).len() >= 35 + runner.len(),
        forall|i: int| 0 <= i < 25 ==> #[trigger] written_body(runner)[i] != '"',
        forall|i: int| 0 <= i < 31 ==> #[trigger] written_body(runner)[i] != '}',
        written_body(runner).subrange(25, 31) == NAME_KEY@,
        is_space(written_body(runner)[31]),
        is_space(written_body(runner)[32]),
        written_body(runner)[33] == '"',
        written_body(runner).subrange(34, 34 + runner.len() as int) == runner,
        written_body(runner)[34 + runner.len() as int] == '"',
{
    reveal_strlit("\"name\"");
    lemma_indent(24);
    let head = indent(24) + NAME_KEY@ + tabs() + quoted(runner);
    let tail = indent(24) + CONFIG_KEY@ + tabs() + quoted(Seq::empty()) + indent(24)
        + PRIORITY_KEY@ + tabs() + quoted(PRIORITY@) + indent(20);
    let body = written_body(runner);
    assert(body =~= head + tail);
    assert(head.len() == 35 + runner.len());
    assert forall|i: int| 0 <= i < head.len() implies body[i] == head[i] by {}
    assert forall|i: int| 0 <= i < 25 implies #[trigger] body[i] != '"' by {
        assert(body[i] == indent(24)[i]);
    }
    assert forall|i: int| 0 <= i < 31 implies #[trigger] body[i] != '}' by {
        if i < 25 {
            assert(body[i] == indent(24)[i]);
        } else {
            assert(body[i] == NAME_KEY@[i - 25]);
        }
    }
    assert(body.subrange(25, 31) =~= NAME_KEY@);
    assert(body[31] == '\t');
    assert(body[32] == '\t');
    assert(body.subrange(34, 34 + runner.len() as int) =~= runner);
}

/// Where the parts of a binding block stand.
proof fn lemma_block_layout(app_id: u32, runner: Seq<char>)
    ensures
        ({
            let b = binding_block(app_id, runner);
            let key = block_key(app_id);
            let body = written_body(runner);
            let open: int = 79 + key.len() as int;
            &&& b.len() == open + body.len() + 3
            &&& b.subrange(0, 19) == SECTION_KEY@
            &&& forall|i: int| 19 <= i < 36 ==> is_space(#[trigger] b[i])
            &&& b[36] == '{'
            &&& forall|i: int| 37 <= i < 58 ==> #[trigger] b[i] != '"'
            &&& b.subrange(58, 58 + key.len() as int) == key
            &&& forall|i: int| 58 + key.len() as int <= i < open ==> #[trigger] b[i] != '{'
            &&& b[open] == '{'
            &&& b.subrange(open + 1, open + 1 + body.len() as int) == body
            &&& b[open + 1 + body.len() as int] == '}'
        }),
{
    lemma_section_key();
    lemma_indent(16);
    lemma_indent(20);
    let b = binding_block(app_id, runner);
    let key = block_key(app_id);
    let body = written_body(runner);
    let open: int = 79 + key.len() as int;
    let a1 = SECTION_KEY@;
    let a2 = a1 + indent(16);
    let a3 = a2 + seq!['{'];
    let a4 = a3 + indent(20);
    let a5 = a4 + key;
    let a6 = a5 + indent(20);
    let a7 = a6 + seq!['{'];
    let a8 = a7 + body;
    let a9 = a8 + seq!['}'];
    assert(written_block(app_id, runner) =~= key + indent(20) + seq!['{'] + body + seq!['}']);
    assert(b =~= a9 + seq!['\n']);
    assert(a1.len() == 19);
    assert(a2.len() == 36);
    assert(a3.len() == 37);
    assert(a4.len() == 58);
    assert(a5.len() == 58 + key.len());
    assert(a6.len() == open);
    assert(a7.len() == open + 1);
    assert(a8.len() == open + 1 + body.len());
    assert(b.subrange(0, 19) =~= SECTION_KEY@);
    assert forall|i: int| 19 <= i < 36 implies is_space(#[trigger] b[i]) by {
        assert(b[i] == a2[i]);
        assert(a2[i] == indent(16)[i - 19]);
    }
    assert(b[36] == a3[36]);
    assert forall|i: int| 37 <= i < 58 implies #[trigger] b[i] != '"' by {
        assert(b[i] == a4[i]);
        assert(a4[i] == indent(20)[i - 37]);
    }
    assert(b.subrange(58, 58 + key.len() as int) =~= key) by {
        assert forall|i: int| 0 <= i < key.len() implies b[58 + i] == key[i] by {
            assert(b[58 + i] == a5[58 + i]);
        }
    }
    assert forall|i: int| 58 + key.len() as int <= i < open implies #[trigger] b[i] != '{' by {
        assert(b[i] == a6[i]);
        assert(a6[i] == indent(20)[i - 58 - key.len()]);
    }
    assert(b[open] == a7[open]);
    assert(b.subrange(open + 1, open + 1 + body.len() as int) =~= body) by {
        assert forall|i: int| 0 <= i < body.len() implies b[open + 1 + i] == body[i] by {
            assert(b[open + 1 + i] == a8[open + 1 + i]);
        }
    }
    assert(b[open + 1 + body.len() as int] == a9[open + 1 + body.len() as int]);
}

/// A text in which the section's key, white space and `{` stand at `p`, and
/// the section opens nowhere before, has its first section there.
proof fn lemma_section_at(w: Seq<char>, p: int, brace: int)
    requires
        0 <= p,
        p + 19 <= brace < w.len(),
        w.subrange(p, p + 19) == SECTION_KEY@,
        forall|i: int| p + 19 <= i < brace ==> is_space(#[trigger] w[i]),
        w[brace] == '{',
        forall|q: int| 0 <= q < p ==> !opens_section(w, q),
    ensures
        has_section(w),
        first_section(w) == p,
        section_start(w) == brace + 1,
{
    lemma_section_key();
    lemma_blank_end_is(w, p + 19, brace);
    assert(section_brace(w, p) == brace);
    assert(occurs_at(w, SECTION_KEY@, p));
    assert(opens_section(w, p));
    lemma_first_section(w, p);
}

/// A text in which `key` stands at `at` and nowhere between `from` and `at`,
/// followed by `{` at `open`, by `body` and by `}`, has its first block of
/// `key` there, and the block's body is `body` up to its first `}`.
proof fn lemma_block_at(
    w: Seq<char>,
    key: Seq<char>,
    body: Seq<char>,
    from: int,
    at: int,
    open: int,
)
    requires
        0 <= from <= at,
        key.len() >= 1,
        at + key.len() <= open,
        open + 1 + body.len() < w.len(),
        forall|q: int| from <= q < at ==> #[trigger] w[q] != key[0],
        w.subrange(at, at + key.len() as int) == key,
        forall|i: int| at + key.len() <= i < open ==> #[trigger] w[i] != '{',
        w[open] == '{',
        w.subrange(open + 1, open + 1 + body.len() as int) == body,
        w[open + 1 + body.len() as int] == '}',
        body.len() >= 31,
        forall|i: int| 0 <= i < 31 ==> #[trigger] body[i] != '}',
        body.subrange(25, 31) == NAME_KEY@,
    ensures
        has_block(w, key, from),
        first_block(w, key, from) == at,
        block_body(w, key, at) == body.take(next_of(body, '}', 0)),
{
    reveal_strlit("\"name\"");
    assert(occurs_at(w, key, at));
    lemma_next_of_is(w, '{', at + key.len(), open);
    assert(block_open(w, key, at) == open);
    let n = next_of(body, '}', 0);
    lemma_next_of(body, '}', 0);
    assert forall|i: int| 0 <= i < body.len() implies w[open + 1 + i] == #[trigger] body[i] by {
        assert(w.subrange(open + 1, open + 1 + body.len() as int)[i] == w[open + 1 + i]);
    }
    assert forall|i: int| open + 1 <= i < open + 1 + n implies #[trigger] w[i] != '}' by {
        assert(w[i] == body[i - open - 1]);
    }
    assert(w[open + 1 + n] == '}') by {
        if n < body.len() {
            assert(w[open + 1 + n] == body[n]);
        }
    }
    lemma_next_of_is(w, '}', open + 1, open + 1 + n);
    assert(block_close(w, key, at) == open + 1 + n);
    let kept = body.take(n);
    assert(block_body(w, key, at) =~= kept);
    assert(n >= 31) by {
        if n < 31 {
            assert(body[n] != '}');
        }
    }
    assert(kept.subrange(25, 31) =~= body.subrange(25, 31));
    assert(occurs_at(kept, NAME_KEY@, 25));
    assert(is_block(w, key, at));
    assert forall|q: int| from <= q < at implies !is_block(w, key, q) by {
        if occurs_at(w, key, q) {
            assert(w.subrange(q, q + key.len())[0] == key[0]);
        }
    }
    lemma_first_block(w, key, from, at);
}

/// A configuration in which a binding block stands where the section opens
/// first binds what the block's own body names.
proof fn lemma_reads_written_block(pre: Seq<char>, rest: Seq<char>, app_id: u32, runner: Seq<char>)
    requires
        forall|q: int|
            0 <= q < pre.len() ==> !opens_section(pre + binding_block(app_id, runner) + rest, q),
    ensures
        has_section(pre + binding_block(app_id, runner) + rest),
        binding_of(pre + binding_block(app_id, runner) + rest, app_id) == name_in(
            kept_body(runner),
        ),
{
    let b = binding_block(app_id, runner);
    let w = pre + b + rest;
    let key = block_key(app_id);
    let body = written_body(runner);
    let p = pre.len() as int;
    let open: int = p + 79 + key.len() as int;
    lemma_block_layout(app_id, runner);
    lemma_body_layout(runner);
    lemma_key(app_id);
    lemma_shifted(pre, b, rest);
    assert(w.subrange(p, p + 19) =~= b.subrange(0, 19));
    assert(w.subrange(p + 58, p + 58 + key.len() as int) =~= b.subrange(
        58,
        58 + key.len() as int,
    ));
    assert(w.subrange(open + 1, open + 1 + body.len() as int) =~= b.subrange(
        open + 1 - p,
        open + 1 - p + body.len() as int,
    ));
    assert forall|i: int| p + 19 <= i < p + 36 implies is_space(#[trigger] w[i]) by {
        assert(w[i] == b[i - p]);
    }
    assert(w[p + 36] == b[36]);
    lemma_section_at(w, p, p + 36);
    assert forall|q: int| p + 37 <= q < p + 58 implies #[trigger] w[q] != key[0] by {
        assert(w[q] == b[q - p]);
    }
    assert forall|i: int| p + 58 + key.len() <= i < open implies #[trigger] w[i] != '{' by {
        assert(w[i] == b[i - p]);
    }
    assert(w[open] == b[open - p]);
    assert(w[open + 1 + body.len() as int] == b[open + 1 + body.len() as int - p]);
    lemma_block_at(w, key, body, p + 37, p + 58, open);
}

/// The characters of `b` stand in `pre + b + rest` behind those of `pre`.
proof fn lemma_shifted(pre: Seq<char>, b: Seq<char>, rest: Seq<char>)
    ensures
        (pre + b + rest).len() == pre.len() + b.len() + rest.len(),
        forall|i: int| 0 <= i < b.len() ==> (pre + b + rest)[pre.len() + i] == #[trigger] b[i],
        forall|i: int|
            pre.len() <= i < pre.len() + b.len() ==> #[trigger] (pre + b + rest)[i] == b[i
                - pre.len()],
{
}

/// Putting a binding block in place of the opening of the section leaves the
/// section where it was: it opens nowhere before.
proof fn lemma_no_earlier_section(t: Seq<char>, app_id: u32, runner: Seq<char>, q: int)
    requires
        has_section(t),
        0 <= q < first_section(t),
    ensures
        !opens_section(with_opening(t, binding_block(app_id, runner)), q),
{
    lemma_section_has_first(t);
    lemma_section_key();
    lemma_block_layout(app_id, runner);
    let p = first_section(t);
    let b = binding_block(app_id, runner);
    let w = with_opening(t, b);
    let pre = t.subrange(0, p);
    assert(w =~= pre + b + t.subrange(section_start(t), t.len() as int));
    assert forall|i: int| 0 <= i < p implies w[i] == t[i] by {}
    assert forall|i: int| 0 <= i < 19 implies w[p + i] == SECTION_KEY@[i] by {
        assert(w[p + i] == b[i]);
        assert(b.subrange(0, 19)[i] == b[i]);
    }
    if opens_section(w, q) {
        let j = section_brace(w, q);
        lemma_blank_end(w, q + 19);
        if j >= p {
            // The white space before `j` would reach into the key at `p`.
            let x = if q + 19 >= p {
                q + 19
            } else {
                p
            };
            if j >= p + 19 {
                assert(is_space(w[x]));
                assert(w[x] == SECTION_KEY@[x - p]);
            } else {
                assert(w[j] == SECTION_KEY@[j - p]);
            }
            assert(false);
        }
        assert(t.subrange(q, q + 19) =~= w.subrange(q, q + 19));
        assert forall|i: int| q + 19 <= i < j implies is_space(#[trigger] t[i]) by {
            assert(t[i] == w[i]);
        }
        lemma_blank_end_is(t, q + 19, j);
        assert(opens_section(t, q));
        assert(false);
    }
}

/// A configuration in which a binding block was put in place of the opening
/// of the section binds what the block's own body names.
proof fn lemma_reads_new_opening(t: Seq<char>, app_id: u32, runner: Seq<char>)
    requires
        has_section(t),
    ensures
        has_section(with_opening(t, binding_block(app_id, runner))),
        binding_of(with_opening(t, binding_block(app_id, runner)), app_id) == name_in(
            kept_body(runner),
        ),
{
    lemma_section_has_first(t);
    let p = first_section(t);
    let b = binding_block(app_id, runner);
    let pre = t.subrange(0, p);
    let rest = t.subrange(section_start(t), t.len() as int);
    assert(with_opening(t, b) == pre + b + rest);
    assert forall|q: int| 0 <= q < pre.len() implies !opens_section(pre + b + rest, q) by {
        lemma_no_earlier_section(t, app_id, runner, q);
    }
    lemma_reads_written_block(pre, rest, app_id, runner);
}

/// The body of a written block names the runner that was written, where the
/// runner's name holds neither `"` nor `}`.
proof fn lemma_written_body_names_runner(runner: Seq<char>)
    requires
        free_of(runner, '"'),
        free_of(runner, '}'),
    ensures
        name_in(kept_body(runner)) == Ok::<Seq<char>, ConfigError>(runner),
{
    reveal_strlit("\"name\"");
    reveal_strlit("\"config\"");
    reveal_strlit("\"priority\"");
    reveal_strlit("250");
    lemma_indent(24);
    lemma_indent(20);
    lemma_body_layout(runner);
    let body = written_body(runner);
    let head = indent(24) + NAME_KEY@ + tabs() + quoted(runner);
    let c1 = indent(24) + CONFIG_KEY@ + tabs() + quoted(Seq::empty());
    let c2 = indent(24) + PRIORITY_KEY@ + tabs() + quoted(PRIORITY@);
    assert(body =~= head + c1 + c2 + indent(20));
    assert(free_of(head, '}')) by {
        assert forall|i: int| 0 <= i < head.len() implies #[trigger] head[i] != '}' by {
            if i < 25 {
                assert(head[i] == indent(24)[i]);
            } else if i < 31 {
                assert(head[i] == NAME_KEY@[i - 25]);
            } else if i < 34 {
            } else if i < 34 + runner.len() {
                assert(head[i] == runner[i - 34]);
            } else {
            }
        }
    }
    assert(free_of(c1, '}')) by {
        assert forall|i: int| 0 <= i < c1.len() implies #[trigger] c1[i] != '}' by {
            if i < 25 {
                assert(c1[i] == indent(24)[i]);
            } else if i < 33 {
                assert(c1[i] == CONFIG_KEY@[i - 25]);
            } else {
            }
        }
    }
    assert(free_of(c2, '}')) by {
        assert forall|i: int| 0 <= i < c2.len() implies #[trigger] c2[i] != '}' by {
            if i < 25 {
                assert(c2[i] == indent(24)[i]);
            } else if i < 35 {
                assert(c2[i] == PRIORITY_KEY@[i - 25]);
            } else if i < 37 {
            } else if i == 37 {
            } else if i < 41 {
                assert(c2[i] == PRIORITY@[i - 38]);
            } else {
            }
        }
    }
    assert(free_of(body, '}')) by {
        assert forall|i: int| 0 <= i < body.len() implies #[trigger] body[i] != '}' by {
            if i < head.len() {
                assert(body[i] == head[i]);
            } else if i < head.len() + c1.len() {
                assert(body[i] == c1[i - head.len()]);
            } else if i < head.len() + c1.len() + c2.len() {
                assert(body[i] == c2[i - head.len() - c1.len()]);
            } else {
                assert(body[i] == indent(20)[i - head.len() - c1.len() - c2.len()]);
            }
        }
    }
    lemma_next_of_is(body, '}', 0, body.len() as int);
    assert(kept_body(runner) =~= body);
    // The first `"name"` stands behind the indentation.
    assert(occurs_at(body, NAME_KEY@, 25));
    assert forall|j: int| 0 <= j < 25 implies !occurs_at(body, NAME_KEY@, j) by {
        if occurs_at(body, NAME_KEY@, j) {
            assert(body.subrange(j, j + 6)[0] == NAME_KEY@[0]);
        }
    }
    lemma_first_occurrence(body, NAME_KEY@, 25);
    lemma_blank_end_is(body, 31, 33);
    let end = 34 + runner.len() as int;
    assert forall|i: int| 34 <= i < end implies #[trigger] body[i] != '"' by {
        assert(body.subrange(34, end)[i - 34] == runner[i - 34]);
    }
    lemma_next_of_is(body, '"', 34, end);
}

/// A binding that was written is read back: where the configuration, with
/// the application's first block taken out, has the section, the rewritten
/// configuration binds `runner` to the application. The runner's name must
/// hold neither `"` nor `}`, which would end its value or its block.
pub proof fn lemma_written_binding_is_read(content: Seq<char>, app_id: u32, runner: Seq<char>)
    requires
        has_section(without_block(content, block_key(app_id))),
        free_of(runner, '"'),
        free_of(runner, '}'),
    ensures
        binding_of(rebound(content, app_id, runner), app_id) == Ok::<Seq<char>, ConfigError>(
            runner,
        ),
{
    lemma_reads_new_opening(without_block(content, block_key(app_id)), app_id, runner);
    lemma_written_body_names_runner(runner);
}

/// Writing a binding twice leaves what is read back as it was after the
/// first write, where each of the two writes finds the section once it has
/// taken the application's first block out.
pub proof fn lemma_second_write_reads_the_same(content: Seq<char>, app_id: u32, runner: Seq<char>)
    requires
        has_section(without_block(content, block_key(app_id))),
        has_section(without_block(rebound(content, app_id, runner), block_key(app_id))),
    ensures
        binding_of(rebound(rebound(content, app_id, runner), app_id, runner), app_id)
            == binding_of(rebound(content, app_id, runner), app_id),
{
    lemma_reads_new_opening(without_block(content, block_key(app_id)), app_id, runner);
    lemma_reads_new_opening(
        without_block(rebound(content, app_id, runner), block_key(app_id)),
        app_id,
        runner,
    );
}

/// A write keeps the section: a configuration that has it after the
/// application's first block is taken out has it after the write.
pub proof fn lemma_write_keeps_section(content: Seq<char>, app_id: u32, runner: Seq<char>)
    requires
        has_section(without_block(content, block_key(app_id))),
    ensures
        has_section(rebound(content, app_id, runner)),
{
    lemma_reads_new_opening(without_block(content, block_key(app_id)), app_id, runner);
}

/// A configuration without the section takes no binding: a write then only
/// takes the application's first block out.
pub proof fn lemma_write_without_section(content: Seq<char>, app_id: u32, runner: Seq<char>)
    requires
        !has_section(without_block(content, block_key(app_id))),
    ensures
        rebound(content, app_id, runner) == without_block(content, block_key(app_id)),
        binding_of(rebound(content, app_id, runner), app_id) == Err::<Seq<char>, ConfigError>(
            ConfigError::NotFound,
        ),
{
}

/// A runner that was chosen and bound to a game is kept from then on: read
/// from the rewritten configuration, the binding names a runner of the
/// catalog, and that runner is the one resolved, whatever the ranks. The
/// configuration must have the section once the game's first block is taken
/// out, and the runner's machine name must hold neither `"` nor `}`.
pub proof fn lemma_chosen_runner_is_kept(
    content: Seq<char>,
    app_id: u32,
    catalog: Seq<Runner>,
    magnitudes: Seq<Option<i64>>,
    chosen: int,
    resolved: int,
)
    requires
        0 <= chosen < catalog.len(),
        has_section(without_block(content, block_key(app_id))),
        free_of(catalog[chosen].name@, '"'),
        free_of(catalog[chosen].name@, '}'),
        is_resolved(
            bound_name(Some(rebound(content, app_id, catalog[chosen].name@)), app_id),
            catalog,
            magnitudes,
            resolved,
        ),
    ensures
        binding_holds(
            bound_name(Some(rebound(content, app_id, catalog[chosen].name@)), app_id),
            catalog,
        ),
        catalog[resolved].name@ == catalog[chosen].name@,
{
    lemma_written_binding_is_read(content, app_id, catalog[chosen].name@);
}

} // verus!
