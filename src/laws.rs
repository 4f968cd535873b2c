use vstd::prelude::*;

use crate::classify::{
    contains_word, is_space, layer_end_start, line_fails, space_end, word_at,
    LAYER_END_WORD,
};
use crate::height::{comparable_of, token_scaled, Height};
use crate::commit::{finish_plan, FileStep};
use crate::inject::{line_output, run_lines, Action, RunState, CRLF, PAUSE_MARK};
use crate::text::{digit_end, is_digit, lemma_number_span, number_span};

verus! {

/// Whether the line `s` is a layer end at the target height that carries no
/// pause mark, the one kind of line after which a pause goes.
pub open spec fn inserts_at(s: Seq<char>, target: Height) -> bool {
    contains_word(s, LAYER_END_WORD@) && match layer_end_start(s) {
        Some(i) => comparable_of(token_scaled(s, i) as int) == target.comparable_spec()
            && s.subrange(number_span(s, i).3, s.len() as int) != PAUSE_MARK@,
        None => false,
    }
}

/// The lines, each followed by `CRLF`.
pub open spec fn crlf_join(lines: Seq<Seq<char>>) -> Seq<char>
    decreases lines.len(),
{
    if lines.len() == 0 {
        Seq::empty()
    } else {
        crlf_join(lines.drop_last()) + lines.last() + CRLF@
    }
}

/// A pass over lines none of which takes a pause inserts nothing and writes
/// every line back as it was, each ended by `CRLF`.
pub proof fn lemma_paused_file_unchanged(lines: Seq<Seq<char>>, target: Height)
    requires
        target.wf(),
        forall|k: int| 0 <= k < lines.len() ==> !inserts_at(#[trigger] lines[k], target),
        run_lines(lines, target) is Some,
    ensures
        !run_lines(lines, target)->Some_0.0.pause_inserted,
        run_lines(lines, target)->Some_0.1 == crlf_join(lines),
    decreases lines.len(),
{
    if lines.len() > 0 {
        let prev = lines.drop_last();
        assert forall|k: int| 0 <= k < prev.len() implies !inserts_at(#[trigger] prev[k], target) by {
            assert(prev[k] == lines[k]);
        }
        lemma_paused_file_unchanged(prev, target);
        assert(!inserts_at(lines[lines.len() - 1], target));
    }
}

proof fn lemma_space_end_extended(s: Seq<char>, t: Seq<char>, j: int)
    requires
        0 <= j <= s.len(),
        space_end(s, j) < s.len(),
    ensures
        space_end(s + t, j) == space_end(s, j),
    decreases s.len() - j,
{
    if j < s.len() && is_space(s[j]) {
        lemma_space_end_extended(s, t, j + 1);
    }
}

proof fn lemma_digit_end_extended(s: Seq<char>, t: Seq<char>, j: int)
    requires
        0 <= j <= s.len(),
        t.len() > 0,
        !is_digit(t[0]),
    ensures
        digit_end(s + t, j) == digit_end(s, j),
    decreases s.len() - j,
{
    if j < s.len() && is_digit(s[j]) {
        lemma_digit_end_extended(s, t, j + 1);
    }
}

/// A layer end line with nothing after its height, once the pause mark is
/// appended, still reads as a layer end at the same height, now carrying the
/// mark: a later pass at that height reports it as paused already and
/// writes it back unchanged.
pub proof fn lemma_marked_line_recognised(s: Seq<char>, st: RunState, target: Height)
    requires
        target.wf(),
        contains_word(s, LAYER_END_WORD@),
        layer_end_start(s) is Some,
        number_span(s, layer_end_start(s)->Some_0).3 == s.len(),
        st.next_line(s, target).1 is InsertPause,
    ensures
        layer_end_start(s + PAUSE_MARK@) == layer_end_start(s),
        token_scaled(s + PAUSE_MARK@, layer_end_start(s)->Some_0) == token_scaled(
            s,
            layer_end_start(s)->Some_0,
        ),
        line_fails(s + PAUSE_MARK@) == line_fails(s),
        st.next_line(s + PAUSE_MARK@, target).1 == Action::AlreadyPaused,
        line_output(s + PAUSE_MARK@, Action::AlreadyPaused) == s + PAUSE_MARK@ + CRLF@,
{
    reveal_strlit("  (pause here)");
    let w = LAYER_END_WORD@;
    let p = PAUSE_MARK@;
    let m = s + p;
    assert(p[0] == ' ');
    let i = layer_end_start(s)->Some_0;
    let a = space_end(s, 1);
    let b = space_end(s, a + w.len());
    let c = space_end(s, b + 1);
    lemma_space_end_extended(s, p, 1);
    assert(m.subrange(a, a + w.len()) =~= s.subrange(a, a + w.len()));
    lemma_space_end_extended(s, p, a + w.len());
    lemma_space_end_extended(s, p, b + 1);
    assert(m[0] == s[0] && m[b] == s[b] && m[c] == s[c] && m[c + 1] == s[c + 1]);
    assert(layer_end_start(m) == layer_end_start(s));
    assert(word_at(m, a, w));
    assert(contains_word(m, w));
    let e = digit_end(s, i);
    lemma_digit_end_extended(s, p, i);
    if e < s.len() && s[e] == '.' {
        lemma_digit_end_extended(s, p, e + 1);
    }
    assert(number_span(m, i) == number_span(s, i));
    lemma_number_span(s, i);
    let (na, nb, nc, nd) = number_span(s, i);
    assert(m.subrange(na, nb) =~= s.subrange(na, nb));
    assert(m.subrange(nc, nd) =~= s.subrange(nc, nd));
    assert(m.subrange(nd, m.len() as int) =~= p);
}

/// Whether the line `s` is a layer end at or above the target height.
pub open spec fn reaches(s: Seq<char>, target: Height) -> bool {
    contains_word(s, LAYER_END_WORD@) && match layer_end_start(s) {
        Some(i) => comparable_of(token_scaled(s, i) as int) >= target.comparable_spec(),
        None => false,
    }
}

/// A target above every layer end of a file: the pass inserts nothing,
/// writes every line back as it was, each ended by `CRLF`, and reports at
/// its end that no layer ends at the target height; the discard plan then
/// leaves the source and any backup alone.
pub proof fn lemma_target_above_all_layers(lines: Seq<Seq<char>>, target: Height)
    requires
        target.wf(),
        forall|k: int| 0 <= k < lines.len() ==> !reaches(#[trigger] lines[k], target),
        run_lines(lines, target) is Some,
    ensures
        !run_lines(lines, target)->Some_0.0.pause_inserted,
        !run_lines(lines, target)->Some_0.0.target_layer_found,
        run_lines(lines, target)->Some_0.1 == crlf_join(lines),
        run_lines(lines, target)->Some_0.0.finish_spec() == Action::NotFound,
        finish_plan(run_lines(lines, target)->Some_0.0.pause_inserted) == seq![
            FileStep::RemoveTemp,
        ],
    decreases lines.len(),
{
    if lines.len() > 0 {
        let prev = lines.drop_last();
        assert forall|k: int| 0 <= k < prev.len() implies !reaches(#[trigger] prev[k], target) by {
            assert(prev[k] == lines[k]);
        }
        lemma_target_above_all_layers(prev, target);
        assert(!reaches(lines[lines.len() - 1], target));
    }
}

} // verus!
