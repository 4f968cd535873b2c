use vstd::prelude::*;

use crate::classify::{
    classify_line, contains_word, layer_end_start, line_fails, temperature_start,
    temperature_value, LineEvent, ParseError, LAYER_END_WORD,
};
use crate::height::{comparable_of, token_scaled, Height};
use crate::template::{build_pause_gcode, pause_block_text};
use crate::text::number_span;

verus! {

/// Appended to a layer end line after which a pause was inserted.
pub const PAUSE_MARK: &'static str = "  (pause here)";

/// Ends every line that is written.
pub const CRLF: &'static str = "\r\n";

/// What the pass over a file has seen so far.
#[derive(Clone, Copy, Debug, PartialEq, Eq, Structural)]
pub struct RunState {
    /// The extruder temperature set last, 0 before any is set.
    pub current_temperature: u64,
    /// The highest extruder temperature set so far, 0 before any is set.
    pub maximum_temperature: u64,
    /// A layer at or above the target height has been reached.
    pub target_layer_found: bool,
    /// A pause block has been written.
    pub pause_inserted: bool,
}

/// What to do with one line.
#[derive(Clone, Copy, Debug, PartialEq, Eq, Structural)]
pub enum Action {
    /// Write the line unchanged.
    Pass,
    /// Write the line with the pause mark, then the pause block.
    InsertPause { preheat: u64, restore: u64, resume_thousandths: u64 },
    /// Write the line unchanged; the target layer is paused already.
    AlreadyPaused,
    /// Write the line unchanged; no layer ends at the target height.
    NotFound,
}

/// Whether the heights an event carries are in range.
pub open spec fn event_wf(e: LineEvent) -> bool {
    match e {
        LineEvent::LayerEnd { height, .. } => height.wf(),
        _ => true,
    }
}

impl RunState {
    pub open spec fn initial() -> RunState {
        RunState {
            current_temperature: 0,
            maximum_temperature: 0,
            target_layer_found: false,
            pause_inserted: false,
        }
    }

    /// The state at the start of a pass.
    pub fn new() -> (r: RunState)
        ensures
            r == RunState::initial(),
    {
        RunState {
            current_temperature: 0,
            maximum_temperature: 0,
            target_layer_found: false,
            pause_inserted: false,
        }
    }

    /// A layer ends at rounded height `z`, `marked` telling whether it carries
    /// the pause mark; the target's rounded height is `t`.
    pub open spec fn next_layer(self, z: int, marked: bool, t: int) -> (RunState, Action) {
        if z == t {
            if marked {
                (RunState { target_layer_found: true, ..self }, Action::AlreadyPaused)
            } else {
                (
                    RunState { target_layer_found: true, pause_inserted: true, ..self },
                    Action::InsertPause {
                        preheat: self.maximum_temperature,
                        restore: self.current_temperature,
                        resume_thousandths: (t + 500) as u64,
                    },
                )
            }
        } else if z > t && !self.target_layer_found {
            (RunState { target_layer_found: true, ..self }, Action::NotFound)
        } else {
            (self, Action::Pass)
        }
    }

    /// The extruder temperature is set to `temperature`.
    pub open spec fn next_temperature(self, temperature: u64) -> (RunState, Action) {
        (
            RunState {
                current_temperature: temperature,
                maximum_temperature: if temperature > self.maximum_temperature {
                    temperature
                } else {
                    self.maximum_temperature
                },
                ..self
            },
            Action::Pass,
        )
    }

    /// The state and the action after an event.
    pub open spec fn next(self, e: LineEvent, target: Height) -> (RunState, Action) {
        match e {
            LineEvent::LayerEnd { height, rest } => self.next_layer(
                height.comparable_spec(),
                rest@ == PAUSE_MARK@,
                target.comparable_spec(),
            ),
            LineEvent::TemperatureSet { temperature } => self.next_temperature(temperature),
            LineEvent::Plain => (self, Action::Pass),
        }
    }

    /// The state and the action after the line `s`.
    pub open spec fn next_line(self, s: Seq<char>, target: Height) -> (RunState, Action) {
        if contains_word(s, LAYER_END_WORD@) {
            match layer_end_start(s) {
                Some(i) => self.next_layer(
                    comparable_of(token_scaled(s, i) as int),
                    s.subrange(number_span(s, i).3, s.len() as int) == PAUSE_MARK@,
                    target.comparable_spec(),
                ),
                None => (self, Action::Pass),
            }
        } else {
            match temperature_start(s) {
                Some(i) => self.next_temperature(temperature_value(s, i) as u64),
                None => (self, Action::Pass),
            }
        }
    }

    /// Decides what to do with an event, and records it.
    pub fn step(&mut self, event: &LineEvent, target: &Height) -> (a: Action)
        requires
            target.wf(),
            event_wf(*event),
        ensures
            (*final(self), a) == old(self).next(*event, *target),
    {
        match event {
            LineEvent::LayerEnd { height, rest } => {
                let z = height.comparable();
                let t = target.comparable();
                if z == t {
                    self.target_layer_found = true;
                    if same_text(rest.as_str(), PAUSE_MARK) {
                        Action::AlreadyPaused
                    } else {
                        self.pause_inserted = true;
                        Action::InsertPause {
                            preheat: self.maximum_temperature,
                            restore: self.current_temperature,
                            resume_thousandths: target.resume_thousandths(),
                        }
                    }
                } else if z > t && !self.target_layer_found {
                    self.target_layer_found = true;
                    Action::NotFound
                } else {
                    Action::Pass
                }
            },
            LineEvent::TemperatureSet { temperature } => {
                self.current_temperature = *temperature;
                if *temperature > self.maximum_temperature {
                    self.maximum_temperature = *temperature;
                }
                Action::Pass
            },
            LineEvent::Plain => Action::Pass,
        }
    }

    /// The advisory once the pass is over: no layer at or above the target
    /// height was reached.
    pub open spec fn finish_spec(self) -> Action {
        if self.target_layer_found {
            Action::Pass
        } else {
            Action::NotFound
        }
    }

    /// Decides what to report when the last line has been read.
    pub fn finish(&self) -> (r: Action)
        ensures
            r == self.finish_spec(),
    {
        if self.target_layer_found {
            Action::Pass
        } else {
            Action::NotFound
        }
    }

    /// Reads one line, decides what to do with it and records it; returns the
    /// text to write for it.
    pub fn process_line(&mut self, line: &str, target: &Height) -> (r: Result<
        (String, Action),
        ParseError,
    >)
        requires
            target.wf(),
        ensures
            r is Err <==> line_fails(line@),
            r is Err ==> *final(self) == *old(self),
            r matches Ok((out, a)) ==> (*final(self), a) == old(self).next_line(line@, *target)
                && out@ == line_output(line@, a),
    {
        let e = match classify_line(line) {
            Ok(e) => e,
            Err(err) => {
                return Err(err);
            },
        };
        let a = self.step(&e, target);
        let mut out = String::from_str(line);
        match a {
            Action::InsertPause { preheat, restore, resume_thousandths } => {
                out.append(PAUSE_MARK);
                out.append(CRLF);
                let block = build_pause_gcode(preheat, restore, resume_thousandths);
                out.append(block.as_str());
            },
            _ => {
                out.append(CRLF);
            },
        }
        Ok((out, a))
    }
}

/// The text written for a line and its action.
pub open spec fn line_output(line: Seq<char>, a: Action) -> Seq<char> {
    match a {
        Action::InsertPause { preheat, restore, resume_thousandths } => line + PAUSE_MARK@ + CRLF@
            + pause_block_text(preheat as nat, restore as nat, resume_thousandths as nat),
        _ => line + CRLF@,
    }
}

/// Whether two strings hold the same characters.
pub fn same_text(a: &str, b: &str) -> (r: bool)
    ensures
        r == (a@ == b@),
{
    let n = a.unicode_len();
    if n != b.unicode_len() {
        return false;
    }
    let mut k: usize = 0;
    while k < n
        invariant
            n == a@.len() == b@.len(),
            k <= n,
            forall|j: int| 0 <= j < k ==> a@[j] == b@[j],
        decreases n - k,
    {
        if a.get_char(k) != b.get_char(k) {
            return false;
        }
        k = k + 1;
    }
    assert(a@ =~= b@);
    true
}

/// The characters of each line.
pub open spec fn lines_view(lines: Seq<String>) -> Seq<Seq<char>> {
    lines.map_values(|l: String| l@)
}

/// The state and the text after a pass over `lines`, or `None` when a line
/// holds a number that is too large.
pub open spec fn run_lines(lines: Seq<Seq<char>>, target: Height) -> Option<(RunState, Seq<char>)>
    decreases lines.len(),
{
    if lines.len() == 0 {
        Some((RunState::initial(), Seq::empty()))
    } else {
        match run_lines(lines.drop_last(), target) {
            Some((st, out)) => if line_fails(lines.last()) {
                None
            } else {
                let (st2, a) = st.next_line(lines.last(), target);
                Some((st2, out + line_output(lines.last(), a)))
            },
            None => None,
        }
    }
}

proof fn lemma_run_fails_on(lines: Seq<Seq<char>>, k: int, target: Height)
    requires
        0 <= k <= lines.len(),
        run_lines(lines.subrange(0, k), target) is None,
    ensures
        run_lines(lines, target) is None,
    decreases lines.len() - k,
{
    if k < lines.len() {
        assert(lines.subrange(0, k + 1).drop_last() =~= lines.subrange(0, k));
        lemma_run_fails_on(lines, k + 1, target);
    } else {
        assert(lines.subrange(0, k) =~= lines);
    }
}

/// The outcome of a pass over a whole file.
pub struct Rewrite {
    /// The text to write in place of the file.
    pub text: String,
    /// The state at the end of the pass.
    pub state: RunState,
}

/// Passes over all lines of a file: each line is written back with a line
/// feed of `CRLF`, and a pause block follows each unmarked layer end at the
/// target height.
pub fn rewrite(lines: &Vec<String>, target: &Height) -> (r: Result<Rewrite, ParseError>)
    requires
        target.wf(),
    ensures
        r is Err <==> run_lines(lines_view(lines@), *target) is None,
        r matches Ok(w) ==> run_lines(lines_view(lines@), *target) == Some((w.state, w.text@)),
{
    let ghost all = lines_view(lines@);
    let mut state = RunState::new();
    let mut text = String::from_str("");
    proof {
        reveal_strlit("");
        assert(all.subrange(0, 0) =~= Seq::<Seq<char>>::empty());
    }
    let mut i: usize = 0;
    while i < lines.len()
        invariant
            target.wf(),
            all == lines_view(lines@),
            i <= lines@.len(),
            run_lines(all.subrange(0, i as int), *target) == Some((state, text@)),
        decreases lines@.len() - i,
    {
        let ghost before = all.subrange(0, i as int);
        let ghost upto = all.subrange(0, i + 1);
        assert(upto.drop_last() =~= before);
        assert(upto.last() == lines@[i as int]@);
        match state.process_line(lines[i].as_str(), target) {
            Ok((out, _)) => {
                text.append(out.as_str());
            },
            Err(e) => {
                proof {
                    lemma_run_fails_on(all, i + 1, *target);
                }
                return Err(e);
            },
        }
        i = i + 1;
    }
    assert(all.subrange(0, i as int) =~= all);
    Ok(Rewrite { text, state })
}

} // verus!
