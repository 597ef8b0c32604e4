//! The per-line work of the three stream pumps.
//!
//! The loops that wait on pipes and channels live with the caller; what
//! each loop does to one line is here, verified: decode a stdout line
//! into exactly one event, wrap a stderr line as a debug log event, and
//! frame a command as a single newline-terminated line.

use vstd::prelude::*;

use crate::codec::{
    command_fields, decode_event, encode_command, spec_decode_event, spec_encode_command,
    wf_command,
};
use crate::json::{
    esc_byte, esc_bytes, lit_false, lit_null, lit_true, print_field, print_fields, print_int,
    print_nat, print_obj, print_str, print_value, wf_field, wf_fields, wf_value, SpecField,
    SpecValue,
};
use crate::protocol::{BridgeCommand, BridgeEvent, SpecEvent};
use crate::wire::{m_bridge_prefix, m_bridge_prefix_v, t_debug, t_debug_v};

verus! {

/// Whether a line is blank: empty or whitespace only.
pub open spec fn spec_is_blank(s: Seq<u8>) -> bool {
    forall|i: int|
        0 <= i < s.len() ==> (s[i] == 0x20 || s[i] == 0x09 || s[i] == 0x0a || s[i] == 0x0d)
}

/// Whether a line is blank.
pub fn is_blank(s: &Vec<u8>) -> (r: bool)
    ensures
        r == spec_is_blank(s@),
{
    let mut i: usize = 0;
    while i < s.len()
        invariant
            i <= s@.len(),
            forall|k: int|
                0 <= k < i ==> (s@[k] == 0x20 || s@[k] == 0x09 || s@[k] == 0x0a || s@[k] == 0x0d),
        decreases s@.len() - i,
    {
        let b = s[i];
        if !(b == 0x20 || b == 0x09 || b == 0x0a || b == 0x0d) {
            return false;
        }
        i = i + 1;
    }
    true
}

/// What the output pump forwards for one stdout line: nothing for a
/// blank line, otherwise exactly one decoded event — a malformed line
/// becomes the warning log event, never a pump failure.
pub open spec fn spec_output_step(line: Seq<u8>) -> Option<SpecEvent> {
    if spec_is_blank(line) {
        None
    } else {
        Some(spec_decode_event(line))
    }
}

/// One step of the output pump.
pub fn output_pump_step(line: &Vec<u8>) -> (r: Option<BridgeEvent>)
    ensures
        ({
            let s = spec_output_step(line@);
            match r {
                Some(e) => s == Some(e@),
                None => s is None,
            }
        }),
{
    if is_blank(line) {
        None
    } else {
        Some(decode_event(line))
    }
}

/// What the error pump forwards for one stderr line: nothing for a
/// blank line, otherwise a debug log event carrying the line behind
/// the bridge prefix.
pub open spec fn spec_stderr_step(line: Seq<u8>) -> Option<SpecEvent> {
    if spec_is_blank(line) {
        None
    } else {
        Some(SpecEvent::Log { level: t_debug(), message: m_bridge_prefix() + line })
    }
}

/// One step of the error pump.
pub fn stderr_pump_step(line: &Vec<u8>) -> (r: Option<BridgeEvent>)
    ensures
        ({
            let s = spec_stderr_step(line@);
            match r {
                Some(e) => s == Some(e@),
                None => s is None,
            }
        }),
{
    if is_blank(line) {
        None
    } else {
        let mut msg = m_bridge_prefix_v();
        msg.extend_from_slice(line.as_slice());
        proof {
            assert(msg@ =~= m_bridge_prefix() + line@);
        }
        Some(BridgeEvent::Log { level: t_debug_v(), message: msg })
    }
}

// ---------------------------------------------------------------------------
// Ordering: the events a run of stdout lines yields come out in line
// order, with nothing reordered, dropped, or invented.
// ---------------------------------------------------------------------------

/// The view of a list of lines.
pub open spec fn lines_view(v: Seq<Vec<u8>>) -> Seq<Seq<u8>> {
    v.map_values(|x: Vec<u8>| x@)
}

/// The view of a list of events.
pub open spec fn events_view(v: Seq<BridgeEvent>) -> Seq<SpecEvent> {
    v.map_values(|x: BridgeEvent| x@)
}

/// The events a sequence of stdout lines yields, in line order: each
/// non-blank line contributes exactly one event, in place.
pub open spec fn spec_output_events(lines: Seq<Seq<u8>>) -> Seq<SpecEvent>
    decreases lines.len(),
{
    if lines.len() == 0 {
        Seq::empty()
    } else {
        (match spec_output_step(lines[0]) {
            Some(e) => seq![e],
            None => Seq::empty(),
        }) + spec_output_events(lines.drop_first())
    }
}

/// The decode stage preserves order end to end: the events of two
/// consecutive runs of lines are the events of the first run followed
/// by those of the second, for any split.
pub proof fn lemma_output_events_append(a: Seq<Seq<u8>>, b: Seq<Seq<u8>>)
    ensures
        spec_output_events(a + b) == spec_output_events(a) + spec_output_events(b),
    decreases a.len(),
{
    if a.len() == 0 {
        assert(a + b =~= b);
        assert(spec_output_events(a) + spec_output_events(b) =~= spec_output_events(b));
    } else {
        assert((a + b)[0] == a[0]);
        assert((a + b).drop_first() =~= a.drop_first() + b);
        lemma_output_events_append(a.drop_first(), b);
        let h = match spec_output_step(a[0]) {
            Some(e) => seq![e],
            None => Seq::<SpecEvent>::empty(),
        };
        assert(h + (spec_output_events(a.drop_first()) + spec_output_events(b)) =~= (h
            + spec_output_events(a.drop_first())) + spec_output_events(b));
    }
}

/// Run the output pump over a batch of lines: the events come out in
/// line order.
pub fn output_pump_lines(lines: &Vec<Vec<u8>>) -> (r: Vec<BridgeEvent>)
    ensures
        events_view(r@) == spec_output_events(lines_view(lines@)),
{
    let mut out: Vec<BridgeEvent> = Vec::new();
    let mut i: usize = 0;
    proof {
        assert(lines_view(lines@).skip(0) =~= lines_view(lines@));
        assert(events_view(out@) =~= Seq::<SpecEvent>::empty());
        assert(Seq::<SpecEvent>::empty() + spec_output_events(lines_view(lines@))
            =~= spec_output_events(lines_view(lines@)));
    }
    while i < lines.len()
        invariant
            i <= lines@.len(),
            spec_output_events(lines_view(lines@)) == events_view(out@) + spec_output_events(
                lines_view(lines@).skip(i as int),
            ),
        decreases lines@.len() - i,
    {
        let ghost out0: Seq<BridgeEvent> = out@;
        let ghost rest: Seq<Seq<u8>> = lines_view(lines@).skip(i as int);
        proof {
            assert(rest[0] == lines@[i as int]@);
            assert(rest.drop_first() =~= lines_view(lines@).skip(i + 1));
        }
        match output_pump_step(&lines[i]) {
            Some(e) => {
                out.push(e);
                proof {
                    assert(events_view(out@) =~= events_view(out0) + seq![e@]);
                    assert((events_view(out0) + seq![e@]) + spec_output_events(
                        lines_view(lines@).skip(i + 1),
                    ) =~= events_view(out0) + (seq![e@] + spec_output_events(
                        lines_view(lines@).skip(i + 1),
                    )));
                }
            },
            None => {
                proof {
                    assert(Seq::<SpecEvent>::empty() + spec_output_events(
                        lines_view(lines@).skip(i + 1),
                    ) =~= spec_output_events(lines_view(lines@).skip(i + 1)));
                }
            },
        }
        i = i + 1;
    }
    proof {
        assert(lines_view(lines@).skip(i as int).len() == 0);
        assert(spec_output_events(lines_view(lines@).skip(i as int)) =~= Seq::<SpecEvent>::empty());
        assert(events_view(out@) + Seq::<SpecEvent>::empty() =~= events_view(out@));
    }
    out
}

// ---------------------------------------------------------------------------
// Framing: a printed object never holds a raw newline, so one command
// is always exactly one line.
// ---------------------------------------------------------------------------

/// No byte of a sequence is a raw newline.
pub open spec fn newline_free(s: Seq<u8>) -> bool {
    forall|i: int| 0 <= i < s.len() ==> s[i] != 0x0a
}

proof fn lemma_nf_append(a: Seq<u8>, b: Seq<u8>)
    requires
        newline_free(a),
        newline_free(b),
    ensures
        newline_free(a + b),
{
    assert forall|i: int| 0 <= i < (a + b).len() implies (a + b)[i] != 0x0a by {
        if i < a.len() {
            assert((a + b)[i] == a[i]);
        } else {
            assert((a + b)[i] == b[i - a.len()]);
        }
    }
}

proof fn lemma_nf_esc_byte(b: u8)
    ensures
        newline_free(esc_byte(b)),
{
}

proof fn lemma_nf_esc_bytes(s: Seq<u8>)
    ensures
        newline_free(esc_bytes(s)),
    decreases s.len(),
{
    if s.len() > 0 {
        lemma_nf_esc_byte(s[0]);
        lemma_nf_esc_bytes(s.drop_first());
        lemma_nf_append(esc_byte(s[0]), esc_bytes(s.drop_first()));
    }
}

proof fn lemma_nf_print_str(s: Seq<u8>)
    ensures
        newline_free(print_str(s)),
{
    lemma_nf_esc_bytes(s);
    lemma_nf_append(seq![0x22u8], esc_bytes(s));
    lemma_nf_append(seq![0x22u8] + esc_bytes(s), seq![0x22u8]);
    assert((seq![0x22u8] + esc_bytes(s)) + seq![0x22u8] =~= print_str(s));
}

proof fn lemma_nf_print_nat(n: int)
    ensures
        newline_free(print_nat(n)),
    decreases n,
{
    if n >= 10 {
        lemma_nf_print_nat(n / 10);
        lemma_nf_append(print_nat(n / 10), seq![(0x30 + n % 10) as u8]);
    }
}

proof fn lemma_nf_print_int(i: int)
    ensures
        newline_free(print_int(i)),
{
    lemma_nf_print_nat(i);
    if i < 0 {
        lemma_nf_print_nat(-i);
        lemma_nf_append(seq![0x2du8], print_nat(-i));
    }
}

proof fn lemma_nf_print_value(v: SpecValue)
    requires
        wf_value(v),
    ensures
        newline_free(print_value(v)),
{
    match v {
        SpecValue::Str(s) => lemma_nf_print_str(s),
        SpecValue::Int(i) => lemma_nf_print_int(i),
        _ => {},
    }
}

proof fn lemma_nf_print_field(f: SpecField)
    requires
        wf_field(f),
    ensures
        newline_free(print_field(f)),
{
    lemma_nf_print_str(f.key);
    lemma_nf_print_value(f.value);
    lemma_nf_append(print_str(f.key), seq![0x3au8]);
    lemma_nf_append(print_str(f.key) + seq![0x3au8], print_value(f.value));
}

proof fn lemma_nf_print_fields(fs: Seq<SpecField>)
    requires
        wf_fields(fs),
    ensures
        newline_free(print_fields(fs)),
    decreases fs.len(),
{
    if fs.len() == 0 {
    } else if fs.len() == 1 {
        assert(wf_field(fs[0]));
        lemma_nf_print_field(fs[0]);
    } else {
        assert(wf_field(fs[0]));
        lemma_nf_print_field(fs[0]);
        assert(wf_fields(fs.drop_first())) by {
            assert(forall|i: int|
                0 <= i < fs.drop_first().len() ==> fs.drop_first()[i] == fs[i + 1] && wf_field(
                    fs[i + 1],
                ));
        }
        lemma_nf_print_fields(fs.drop_first());
        lemma_nf_append(print_field(fs[0]), seq![0x2cu8]);
        lemma_nf_append(print_field(fs[0]) + seq![0x2cu8], print_fields(fs.drop_first()));
    }
}

/// A canonically printed object holds no raw newline.
pub proof fn lemma_nf_print_obj(fs: Seq<SpecField>)
    requires
        wf_fields(fs),
    ensures
        newline_free(print_obj(fs)),
{
    lemma_nf_print_fields(fs);
    lemma_nf_append(seq![0x7bu8], print_fields(fs));
    lemma_nf_append(seq![0x7bu8] + print_fields(fs), seq![0x7du8]);
    assert((seq![0x7bu8] + print_fields(fs)) + seq![0x7du8] =~= print_obj(fs));
}

/// An encoded command holds no raw newline: large payloads cannot
/// break the line framing.
pub proof fn lemma_command_line_framing(c: crate::protocol::SpecCommand)
    requires
        wf_command(c),
    ensures
        newline_free(spec_encode_command(c)),
{
    let fs = command_fields(c);
    assert(wf_fields(fs)) by {
        crate::codec::lemma_command_fields_wf(c);
    }
    lemma_nf_print_obj(fs);
}

/// One step of the input pump: frame a command as its JSON line plus
/// the terminating newline. The newline it ends with is the only one
/// in the frame, so consecutive commands cannot interleave.
pub fn input_pump_step(c: &BridgeCommand) -> (r: Vec<u8>)
    ensures
        r@ == spec_encode_command(c@) + seq![0x0au8],
        r@.len() >= 1,
        r@.last() == 0x0a,
{
    let mut line = encode_command(c);
    line.push(0x0a);
    proof {
        assert(line@ =~= spec_encode_command(c@) + seq![0x0au8]);
    }
    line
}

} // verus!
