//! What a display says of its colours: its transfer function, its primaries and
//! how bright it gets.

use vstd::prelude::*;

use crate::text;

verus! {

/// How bright a display gets, in ten-thousandths of a candela per square metre.
#[derive(Clone, Copy, PartialEq, Eq, Structural, Debug)]
pub struct Luminance {
    pub min: u64,
    pub max: u64,
    pub reference: u64,
}

/// What a display says of its colours.
#[derive(Debug)]
pub struct OutputColorInfo {
    pub output: String,
    pub transfer: Option<String>,
    pub primaries: Option<String>,
    pub luminance: Option<Luminance>,
    /// In candela per square metre.
    pub target_max_cll: Option<u32>,
    pub failed: Option<String>,
}

impl OutputColorInfo {
    pub open spec fn hdr_signal(&self) -> bool {
        text::opt_owned(self.transfer) matches Some(t) && (t == "st2084"@ || t == "ext_linear"@)
    }

    /// Whether the display takes an HDR signal: one with the perceptual
    /// quantizer, or an extended linear one.
    pub fn is_hdr_signal(&self) -> (r: bool)
        ensures
            r == self.hdr_signal(),
    {
        match &self.transfer {
            Some(t) => text::same(t.as_str(), "st2084") || text::same(t.as_str(), "ext_linear"),
            None => false,
        }
    }
}

/// One piece of what a display says of its colours.
#[derive(Debug)]
pub enum ColorEvent {
    /// A named transfer function.
    Transfer { name: String },
    /// A power curve, with its exponent in ten-thousandths.
    Power { exponent: u32 },
    /// Named primaries.
    Primaries { name: String },
    /// Primaries given by their coordinates.
    CustomPrimaries,
    /// The darkest light in ten-thousandths of a candela per square metre, the
    /// brightest and the reference white in whole ones.
    Luminances { min: u32, max: u32, reference: u32 },
    TargetMaxCll { max_cll: u32 },
    Done,
    Other,
}

/// What a display has said so far.
#[derive(Debug)]
pub struct ColorDetails {
    pub done: bool,
    pub transfer: Option<String>,
    pub primaries: Option<String>,
    pub luminance: Option<Luminance>,
    pub target_max_cll: Option<u32>,
}

/// A number of ten-thousandths as a decimal number, without trailing zeros.
pub open spec fn ten_thousandths(n: nat) -> Seq<char> {
    if n % 10000 == 0 {
        text::dec(n / 10000)
    } else {
        text::dec(n / 10000) + "."@ + fraction(n % 10000, 4)
    }
}

/// The last `places` digits of a number, without the zeros at its end.
pub open spec fn fraction(n: nat, places: nat) -> Seq<char>
    decreases places,
{
    if places == 0 || n == 0 {
        Seq::empty()
    } else {
        seq![text::digit((n / tens((places - 1) as nat)) as nat)] + fraction(
            n % tens((places - 1) as nat),
            (places - 1) as nat,
        )
    }
}

/// One followed by that many noughts, up to ten thousand.
pub open spec fn tens(places: nat) -> nat {
    if places == 0 {
        1
    } else if places == 1 {
        10
    } else if places == 2 {
        100
    } else if places == 3 {
        1000
    } else {
        10000
    }
}

fn push_digit(s: &mut String, d: u32)
    requires
        d < 10,
    ensures
        final(s)@ == old(s)@.push(text::digit(d as nat)),
{
    s.push((48u8 + d as u8) as char);
}

fn push_fraction(s: &mut String, n: u32, places: u32)
    requires
        places <= 4,
        n < tens(places as nat),
    ensures
        final(s)@ == old(s)@ + fraction(n as nat, places as nat),
    decreases places,
{
    if places == 0 || n == 0 {
        assert(s@ =~= s@ + Seq::<char>::empty());
        return;
    }
    let unit: u32 = match places {
        1 => 1,
        2 => 10,
        3 => 100,
        _ => 1000,
    };
    assert(unit == tens((places - 1) as nat));
    assert(n / unit < 10) by (nonlinear_arith)
        requires
            n < 10 * unit,
            unit > 0,
    ;
    push_digit(s, n / unit);
    push_fraction(s, n % unit, places - 1);
    assert(s@ =~= old(s)@ + fraction(n as nat, places as nat));
}

/// The name of a power curve.
pub open spec fn power_name(exponent: u32) -> Seq<char> {
    "power("@ + ten_thousandths(exponent as nat) + ")"@
}

fn name_power(exponent: u32) -> (r: String)
    ensures
        r@ == power_name(exponent),
{
    let mut s = String::from_str("power(");
    text::push_dec(&mut s, (exponent / 10000) as u64);
    if exponent % 10000 != 0 {
        s.append(".");
        push_fraction(&mut s, exponent % 10000, 4);
    }
    s.append(")");
    assert(s@ =~= power_name(exponent));
    s
}

impl ColorDetails {
    /// Nothing has been said.
    pub fn new() -> (r: Self)
        ensures
            !r.done,
            r.transfer is None,
            r.primaries is None,
            r.luminance is None,
            r.target_max_cll is None,
    {
        ColorDetails {
            done: false,
            transfer: None,
            primaries: None,
            luminance: None,
            target_max_cll: None,
        }
    }

    /// What the event says of the transfer function, where it does.
    pub open spec fn heard_transfer(event: ColorEvent) -> Option<Seq<char>> {
        match event {
            ColorEvent::Transfer { name } => Some(text::ascii_lower_all(name@)),
            ColorEvent::Power { exponent } => Some(power_name(exponent)),
            _ => None,
        }
    }

    /// What is known of the primaries after the event. Named primaries replace
    /// what was known; coordinates do not.
    pub open spec fn primaries_after(was: Option<Seq<char>>, event: ColorEvent) -> Option<
        Seq<char>,
    > {
        match event {
            ColorEvent::Primaries { name } => Some(text::ascii_lower_all(name@)),
            ColorEvent::CustomPrimaries => match was {
                Some(p) => Some(p),
                None => Some("custom"@),
            },
            _ => was,
        }
    }

    /// Takes in one more event.
    pub fn on_event(&mut self, event: ColorEvent)
        ensures
            final(self).done == (old(self).done || event is Done),
            text::opt_owned(final(self).transfer) == (match Self::heard_transfer(event) {
                Some(t) => Some(t),
                None => text::opt_owned(old(self).transfer),
            }),
            text::opt_owned(final(self).primaries) == Self::primaries_after(
                text::opt_owned(old(self).primaries),
                event,
            ),
            final(self).luminance == (match event {
                ColorEvent::Luminances { min, max, reference } => Some(
                    Luminance {
                        min: min as u64,
                        max: (max * 10000) as u64,
                        reference: (reference * 10000) as u64,
                    },
                ),
                _ => old(self).luminance,
            }),
            final(self).target_max_cll == (match event {
                ColorEvent::TargetMaxCll { max_cll } => Some(max_cll),
                _ => old(self).target_max_cll,
            }),
    {
        match event {
            ColorEvent::Transfer { name } => {
                self.transfer = Some(text::ascii_lowered(name.as_str()));
            },
            ColorEvent::Power { exponent } => {
                self.transfer = Some(name_power(exponent));
            },
            ColorEvent::Primaries { name } => {
                self.primaries = Some(text::ascii_lowered(name.as_str()));
            },
            ColorEvent::CustomPrimaries => {
                if self.primaries.is_none() {
                    self.primaries = Some(String::from_str("custom"));
                }
            },
            ColorEvent::Luminances { min, max, reference } => {
                self.luminance = Some(
                    Luminance {
                        min: min as u64,
                        max: max as u64 * 10000,
                        reference: reference as u64 * 10000,
                    },
                );
            },
            ColorEvent::TargetMaxCll { max_cll } => {
                self.target_max_cll = Some(max_cll);
            },
            ColorEvent::Done => {
                self.done = true;
            },
            ColorEvent::Other => {},
        }
    }
}

/// How the description of a display's colours came to an end.
#[derive(Debug)]
pub enum DescriptionState {
    Pending,
    Ready,
    Failed { cause: String },
}

/// The report on a display.
///
/// One without a name is called `unnamed`. What was said of the colours counts
/// only where the description was ready.
pub fn report(name: Option<String>, state: DescriptionState, details: ColorDetails) -> (r:
    OutputColorInfo)
    ensures
        r.output@ == (match text::opt_owned(name) {
            Some(n) => n,
            None => "unnamed"@,
        }),
        text::opt_owned(r.failed) == (match state {
            DescriptionState::Pending => Some("image description never settled"@),
            DescriptionState::Ready => None,
            DescriptionState::Failed { cause } => Some(cause@),
        }),
        state is Ready ==> r.transfer == details.transfer && r.primaries == details.primaries
            && r.luminance == details.luminance && r.target_max_cll == details.target_max_cll,
        !(state is Ready) ==> r.transfer is None && r.primaries is None && r.luminance is None
            && r.target_max_cll is None,
{
    let output = match name {
        Some(n) => n,
        None => String::from_str("unnamed"),
    };
    match state {
        DescriptionState::Ready => OutputColorInfo {
            output,
            transfer: details.transfer,
            primaries: details.primaries,
            luminance: details.luminance,
            target_max_cll: details.target_max_cll,
            failed: None,
        },
        DescriptionState::Failed { cause } => OutputColorInfo {
            output,
            transfer: None,
            primaries: None,
            luminance: None,
            target_max_cll: None,
            failed: Some(cause),
        },
        DescriptionState::Pending => OutputColorInfo {
            output,
            transfer: None,
            primaries: None,
            luminance: None,
            target_max_cll: None,
            failed: Some(String::from_str("image description never settled")),
        },
    }
}

// ---- laws --------------------------------------------------------------------------------------

/// A display takes an HDR signal where its transfer function is the perceptual
/// quantizer or the extended linear one.
pub proof fn lemma_hdr_signals_have_two_names(c: OutputColorInfo, r: bool)
    requires
        call_ensures(OutputColorInfo::is_hdr_signal, (&c,), r),
    ensures
        r <==> (c.transfer matches Some(t) && (t@ == "st2084"@ || t@ == "ext_linear"@)),
{
}

/// The value of digits behind a point, in ten-thousandths, where the first of
/// them counts `unit`.
pub open spec fn fraction_value(s: Seq<char>, unit: int) -> int
    decreases s.len(),
{
    if s.len() == 0 {
        0
    } else {
        (s[0] as int - '0' as int) * unit + fraction_value(s.skip(1), unit / 10)
    }
}

proof fn lemma_fraction(n: nat, places: nat)
    requires
        places <= 4,
        n < tens(places),
    ensures
        places > 0 ==> fraction_value(fraction(n, places), tens((places - 1) as nat) as int) == n,
        fraction(n, places).len() <= places,
    decreases places,
{
    if places > 0 && n > 0 {
        let unit = tens((places - 1) as nat);
        let d = n / unit;
        let rest = n % unit;
        assert(d < 10) by (nonlinear_arith)
            requires
                n < 10 * unit,
                unit > 0,
                d == n / unit,
        ;
        assert(n == d * unit + rest) by {
            vstd::arithmetic::div_mod::lemma_fundamental_div_mod(n as int, unit as int);
            assert(unit * d == d * unit) by (nonlinear_arith);
        }
        let tail = fraction(rest, (places - 1) as nat);
        let s = fraction(n, places);
        assert(s =~= seq![text::digit(d)] + tail);
        assert(s[0] as int == '0' as int + d);
        assert(s.skip(1) =~= tail);
        lemma_fraction(rest, (places - 1) as nat);
        assert(fraction_value(s, unit as int) == d * unit + fraction_value(
            tail,
            unit as int / 10,
        ));
        if places == 1 {
            assert(rest == 0);
            assert(tail =~= Seq::<char>::empty());
        } else {
            assert(unit / 10 == tens((places - 2) as nat));
        }
    }
}

/// An exponent is written with its whole part before the point and its
/// ten-thousandths behind it.
pub proof fn lemma_exponents_read_back(n: nat)
    ensures
        n % 10000 == 0 ==> text::dec_value(ten_thousandths(n)) * 10000 == n,
        n % 10000 != 0 ==> exists|whole: Seq<char>, part: Seq<char>|
            ten_thousandths(n) == #[trigger] (whole + "."@ + part) && text::dec_value(whole) * 10000
                + fraction_value(part, 1000) == n && part.len() <= 4,
{
    text::lemma_dec_value(n / 10000);
    if n % 10000 != 0 {
        lemma_fraction(n % 10000, 4);
        let whole = text::dec(n / 10000);
        let part = fraction(n % 10000, 4);
        assert(ten_thousandths(n) == whole + "."@ + part);
    }
}

/// What was said of the colours counts where the description was ready, and a
/// display that failed says why.
pub proof fn lemma_ready_descriptions_count(
    name: Option<String>,
    state: DescriptionState,
    details: ColorDetails,
    r: OutputColorInfo,
)
    requires
        call_ensures(report, (name, state, details), r),
    ensures
        r.failed is None <==> state is Ready,
        r.failed is None ==> r.transfer == details.transfer && r.luminance == details.luminance,
        r.failed is Some ==> r.transfer is None && r.luminance is None && r.primaries is None,
        state matches DescriptionState::Failed { cause } ==> r.failed == Some(cause) || (
        r.failed is Some && r.failed->0@ == cause@),
        name matches Some(n) ==> r.output@ == n@,
{
}

} // verus!
