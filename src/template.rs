use vstd::prelude::*;

use crate::height::Height;
use crate::text::{digit_char, nat_text, thousandths_text};

verus! {

/// The pause block, up to the preheat temperature.
pub const BLOCK_HEAD: &'static str = "\r
;===============================================================================\r
;-------------------------------------------------------------------------------\r
\r
; PAUSE for filament change.\r
\r
; The human may be a great while so set the extruder temperature to 0 C.\r
; Set Extruder Temperature\r
; http://reprap.org/wiki/G-code#M104:_Set_Extruder_Temperature\r
M104 S0\r
\r
; Set to Relative Positioning\r
; http://reprap.org/wiki/G-code#G91:_Set_to_Relative_Positioning\r
G91\r
\r
; Retract the filament a bit so it does not dribble.  (Extrude -2 mm at a\r
; feedrate of 500.)\r
; Linear Move\r
; http://reprap.org/wiki/G-code#G0_.26_G1:_Move\r
G1 E-2.000000 F500\r
\r
; Move the gantry up 1 mm to clear the part\r
; Rapid Move\r
; http://reprap.org/wiki/G-code#G0_.26_G1:_Move\r
G0 Z1\r
\r
; Set to Absolute Positioning\r
; http://reprap.org/wiki/G-code#G90:_Set_to_Absolute_Positioning\r
G90\r
\r
; Move to a safe location.\r
; Rapid Move\r
; http://reprap.org/wiki/G-code#G0_.26_G1:_Move\r
G0 X0 Y0\r
G0 Z30\r
\r
; Ask the human to take action.\r
; Display Message\r
; https://reprap.org/wiki/G-code#M117:_Display_Message\r
M117 Change filament then resume.\r
\r
; Back out the filament all the way.\r
G91\r
G1 E-50 F500\r
G90\r
G92 E0\r
\r
; Ask OctoPrint for a pause.  The human has to resume.\r
; Stop or Unconditional stop\r
; https://reprap.org/wiki/G-code#M0:_Stop_or_Unconditional_stop\r
M0\r
\r
; Heat the extruder so the previous color filament can be flushed.\r
; Set Extruder Temperature and Wait\r
; http://reprap.org/wiki/G-code#M109:_Set_Extruder_Temperature_and_Wait\r
M109 S260\r
\r
; Set to Relative Positioning\r
; http://reprap.org/wiki/G-code#G91:_Set_to_Relative_Positioning\r
G91\r
\r
; Extrude 75 mm at a feedrate of 500 to clear the previous color.\r
; Linear Move\r
; http://reprap.org/wiki/G-code#G0_.26_G1:_Move\r
G1 E75 F500\r
\r
; Ask the human to take action.\r
; Display Message\r
; https://reprap.org/wiki/G-code#M117:_Display_Message\r
M117 Clean the mess, adjust, then resume.\r
\r
; The human may be a while so set the extruder temperature to 180 C.\r
; Set Extruder Temperature and Wait\r
; http://reprap.org/wiki/G-code#M109:_Set_Extruder_Temperature_and_Wait\r
M109 S180\r
\r
; Ask OctoPrint for another pause so the human can clear the waste / make any\r
; further manual adjustments.\r
; Stop or Unconditional stop\r
; https://reprap.org/wiki/G-code#M0:_Stop_or_Unconditional_stop\r
M0\r
\r
; Set to Absolute Positioning.\r
; http://reprap.org/wiki/G-code#G90:_Set_to_Absolute_Positioning\r
G90\r
\r
; Reset extruder position.\r
; Set Position\r
; https://reprap.org/wiki/G-code#G92:_Set_Position\r
G92 E0\r
\r
; Standard PolyPrinter wipe.  (Mostly) copied from above.\r
\r
; absolute mode\r
G90\r
; G92 Z0\r
; G1 Z3 F240 ; raise head a bit in case was stopped in the middle of something and made a bump\r
G28 Y0  ; home Y axis  to put bed as far back as possible, over the power supply, and so the cooling blower doesn't cool the bed\r
; M104 S180; start it warming but don't make it drool\r
; M190  S110; wait for bed to warm up\r
G28 X0	; signal that we are just waiting for the head now\r
; try to get the head as close as possible to the final first-layer temp as possible, to avoid making a puddle at the home position\r
M109 S";

/// The pause block between the preheat and the restore temperatures.
pub const BLOCK_AFTER_PREHEAT: &'static str = "; ensure melting before Z homing\r
G28 Z0 ; home Z\r
; sitting at home position\r
; just in case it melted through and touched, raise head a little before moving, to avoid triggering a bed touch that kills the print\r
G1 Z.50 F240; keep head from melting through tape and causing spurious head contact with bed\r
G1 X10 Y5 Z.25 F2000\r
G92 E0\r
G1 X10 Y0 F1000\r
G1 E12 F300\r
G1 Z3  F240\r
G1 X20 Y5 Z.10 F1000\r
G1 X20 Y0 F2000\r
G1 Z.25  F240\r
G1 E15 F300\r
G1 Z3  F240\r
G1 X30 Y5 Z.10 F1000\r
; retract just a little for the move to the part\r
G92 E0\r
G1 E-.5 F300\r
G1 X30 Y0  F2000\r
M104 S";

/// The pause block between the restore temperature and the resume height.
pub const BLOCK_AFTER_RESTORE: &'static str = "; restore the extruder temperature\r
; G1 Z.25 F240 ; raise to first layer height to avoid tracking across bed\r
\r
G0 Z";

/// The pause block after the resume height.
pub const BLOCK_TAIL: &'static str = " ; <--- Change the value after 'Z' to a bit more than the next layer height. ---<\r
\r
; Reset extruder position.\r
; Set Position\r
; https://reprap.org/wiki/G-code#G92:_Set_Position\r
G92 E0\r
\r
;-------------------------------------------------------------------------------\r
;===============================================================================\r
\r
";

/// The digit characters, in order of value.
pub const DIGITS: &'static str = "0123456789";

/// The G-code that pauses the print for a filament change: it parks the head,
/// waits for the operator, purges at `preheat` degrees, restores `restore`
/// degrees and moves to the resume height.
pub open spec fn pause_block_text(preheat: nat, restore: nat, resume_thousandths: nat) -> Seq<
    char,
> {
    BLOCK_HEAD@ + nat_text(preheat) + BLOCK_AFTER_PREHEAT@ + nat_text(restore)
        + BLOCK_AFTER_RESTORE@ + thousandths_text(resume_thousandths) + BLOCK_TAIL@
}

fn push_digit(out: &mut String, d: u64)
    requires
        d < 10,
    ensures
        final(out)@ == old(out)@.push(digit_char(d as nat)),
{
    proof {
        reveal_strlit("0123456789");
    }
    let piece = DIGITS.substring_char(d as usize, d as usize + 1);
    assert(piece@ =~= seq![digit_char(d as nat)]);
    out.append(piece);
}

/// Appends the decimal text of `n`.
pub fn push_nat(out: &mut String, n: u64)
    ensures
        final(out)@ == old(out)@ + nat_text(n as nat),
    decreases n,
{
    if n >= 10 {
        push_nat(out, n / 10);
        push_digit(out, n % 10);
        assert(final(out)@ =~= old(out)@ + nat_text(n as nat));
    } else {
        push_digit(out, n);
        assert(final(out)@ =~= old(out)@ + nat_text(n as nat));
    }
}

/// Appends a count of thousandths as a decimal with three fraction digits.
pub fn push_thousandths(out: &mut String, n: u64)
    ensures
        final(out)@ == old(out)@ + thousandths_text(n as nat),
{
    push_nat(out, n / 1000);
    out.append(".");
    proof {
        reveal_strlit(".");
    }
    push_digit(out, (n / 100) % 10);
    push_digit(out, (n / 10) % 10);
    push_digit(out, n % 10);
    assert(final(out)@ =~= old(out)@ + thousandths_text(n as nat));
}

/// Builds the pause block for a preheat temperature, a restore temperature
/// and a resume height in thousandths of a millimetre.
pub fn build_pause_gcode(
    maximum_extruder_temperature: u64,
    extruder_temperature: u64,
    resume_thousandths: u64,
) -> (r: String)
    ensures
        r@ == pause_block_text(
            maximum_extruder_temperature as nat,
            extruder_temperature as nat,
            resume_thousandths as nat,
        ),
{
    let mut r = String::from_str(BLOCK_HEAD);
    push_nat(&mut r, maximum_extruder_temperature);
    r.append(BLOCK_AFTER_PREHEAT);
    push_nat(&mut r, extruder_temperature);
    r.append(BLOCK_AFTER_RESTORE);
    push_thousandths(&mut r, resume_thousandths);
    r.append(BLOCK_TAIL);
    r
}

/// The height as shown to the operator: rounded to thousandths, with three
/// fraction digits.
pub fn height_text(h: &Height) -> (r: String)
    requires
        h.wf(),
    ensures
        r@ == thousandths_text(h.comparable_spec() as nat),
{
    let mut r = String::from_str("");
    proof {
        reveal_strlit("");
    }
    push_thousandths(&mut r, h.comparable());
    r
}

} // verus!
