//! The conversation controller: a state machine over the fields of one
//! interactive resize session.
//!
//! [`SessionState::handle`] computes the next prompt and names the handler
//! to apply to the next utterance; the handlers fold one utterance into
//! the state.  Reading lines and probing image files stay outside: the
//! caller passes the probe's result to [`select_image`] as a plain value.
//! A session ends when a handler records an outcome; the controller never
//! prompts past a recorded outcome.

use vstd::prelude::*;
use crate::extract::{parse_resize_details, spec_extract};
use crate::num::{clamp_i32, i32_to_string, int_rep};
use crate::resize::ResizeScenario;
use crate::unit::{physical_pixels, physical_to_pixels, Unit};

verus! {

/// The prompt that presents a computed pixel size and asks for
/// confirmation.  The wording differs slightly between a size given in
/// pixels and one computed from a physical size, as it always has.
pub open spec fn plan_prompt(path: Seq<char>, w: int, h: int, from_pixels: bool) -> Seq<char> {
    "Ok. I can resize "@ + path + " to "@ + int_rep(w) + " x "@ + int_rep(h) + (if from_pixels {
        " pixels for you. Do you want me to do this for you?"@
    } else {
        " pixels. Do you want me to do this for you?"@
    })
}

/// Which handler the interaction loop must apply to the next utterance.
#[derive(Debug, Clone, Copy, PartialEq, Eq, Structural)]
pub enum Handler {
    /// Apply [`select_image`], with the result of probing the named file.
    SelectImage,
    /// Apply [`get_dimensions`].
    GetDimensions,
    /// Apply [`noop`]: the unit conflict can only be resolved by the loop
    /// collecting dimensions afresh.
    Noop,
    /// Apply [`parse_dpi`].
    ParseDpi,
    /// Apply [`reenter_dimensions`].
    ReenterDimensions,
    /// Apply [`confirm_plan`].
    ConfirmPlan,
}

/// What probing an image path yielded: its native size, or a failure.
#[derive(Debug, Clone, Copy, PartialEq, Eq, Structural)]
pub enum ImageProbe {
    /// The file exists and decodes to an image of this native size.
    Found { width: i32, height: i32 },
    /// No file exists under the path.
    NotFound,
    /// The file exists but does not decode as an image.
    Undecodable,
}

/// How a session ended.
#[derive(Debug, Clone, Copy, PartialEq, Eq, Structural)]
pub enum SessionOutcome {
    /// The user confirmed this final pixel size.
    Completed { width: i32, height: i32 },
    /// The user declined; no artifact is produced.
    Cancelled,
}

/// Everything one session knows, owned by the controller.
#[derive(Debug, Clone, PartialEq)]
pub struct SessionState {
    pub image: Option<String>,
    pub native_image_width: Option<i32>,
    pub native_image_height: Option<i32>,
    pub final_width: Option<i32>,
    pub final_height: Option<i32>,
    pub scenario: Option<ResizeScenario>,
    pub dpi: Option<i32>,
    pub outcome: Option<SessionOutcome>,
}

impl SessionState {
    /// The state invariant: a stored scenario presupposes a stored image,
    /// and a stored physical scenario carries well-formed decimals of a
    /// physical unit.
    pub open spec fn wf(self) -> bool {
        &&& self.scenario is Some ==> self.image is Some
        &&& match self.scenario {
            Some(ResizeScenario::PhysicalResize(d)) => d.w.wf() && d.h.wf() && d.unit
                != Unit::Pixels,
            _ => true,
        }
    }

    /// A fresh session: nothing known yet.
    pub fn new() -> (s: SessionState)
        ensures
            s == (SessionState {
                image: None,
                native_image_width: None,
                native_image_height: None,
                final_width: None,
                final_height: None,
                scenario: None,
                dpi: None,
                outcome: None,
            }),
            s.wf(),
    {
        SessionState {
            image: None,
            native_image_width: None,
            native_image_height: None,
            final_width: None,
            final_height: None,
            scenario: None,
            dpi: None,
            outcome: None,
        }
    }
}

/// Is `c` ordinary ASCII whitespace?
pub open spec fn is_blank(c: char) -> bool {
    c == ' ' || c == '\t' || c == '\n' || c == '\r'
}

/// The first position at or after `i` that does not hold whitespace.
pub open spec fn blank_run_end(s: Seq<char>, i: int) -> int
    decreases s.len() - i,
{
    if i < 0 || i >= s.len() || !is_blank(s[i]) {
        i
    } else {
        blank_run_end(s, i + 1)
    }
}

/// The position just past the last non-whitespace character before `i`.
pub open spec fn blank_run_start(s: Seq<char>, i: int) -> int
    decreases i,
{
    if i <= 0 || i > s.len() || !is_blank(s[i - 1]) {
        i
    } else {
        blank_run_start(s, i - 1)
    }
}

/// `s` with leading and trailing whitespace removed.
pub open spec fn trim_of(s: Seq<char>) -> Seq<char> {
    let lo = blank_run_end(s, 0);
    let hi = blank_run_start(s, s.len() as int);
    if lo <= hi {
        s.subrange(lo, hi)
    } else {
        Seq::empty()
    }
}

/// Removes leading and trailing whitespace from an utterance.
pub fn trim_utterance(text: &str) -> (r: String)
    ensures
        r@ == trim_of(text@),
{
    let n = text.unicode_len();
    let mut lo: usize = 0;
    while lo < n && blank_at(text, lo)
        invariant
            lo <= n == text@.len(),
            blank_run_end(text@, 0) == blank_run_end(text@, lo as int),
        decreases n - lo,
    {
        lo = lo + 1;
    }
    let mut hi: usize = n;
    while hi > 0 && blank_at(text, hi - 1)
        invariant
            hi <= n == text@.len(),
            blank_run_start(text@, n as int) == blank_run_start(text@, hi as int),
        decreases hi,
    {
        hi = hi - 1;
    }
    if lo <= hi {
        String::from_str(text.substring_char(lo, hi))
    } else {
        String::new()
    }
}

fn blank_at(text: &str, j: usize) -> (r: bool)
    requires
        j < text@.len(),
    ensures
        r == is_blank(text@[j as int]),
{
    let c = text.get_char(j);
    c == ' ' || c == '\t' || c == '\n' || c == '\r'
}

/// Does the utterance confirm?  Case-insensitively `yes` or `y`; anything
/// else declines.
pub open spec fn is_yes(s: Seq<char>) -> bool {
    ||| (s.len() == 1 && (s[0] == 'y' || s[0] == 'Y'))
    ||| (s.len() == 3 && (s[0] == 'y' || s[0] == 'Y') && (s[1] == 'e' || s[1] == 'E') && (s[2]
        == 's' || s[2] == 'S'))
}

fn utterance_is_yes(text: &str) -> (r: bool)
    ensures
        r == is_yes(text@),
{
    let n = text.unicode_len();
    if n == 1 {
        let c = text.get_char(0);
        c == 'y' || c == 'Y'
    } else if n == 3 {
        let c0 = text.get_char(0);
        let c1 = text.get_char(1);
        let c2 = text.get_char(2);
        (c0 == 'y' || c0 == 'Y') && (c1 == 'e' || c1 == 'E') && (c2 == 's' || c2 == 'S')
    } else {
        false
    }
}

/// Records the image named by the utterance, given the probe's verdict
/// on the trimmed path.
///
/// On success the trimmed path and the native size are stored.  Every
/// failure — a missing file as much as an undecodable one — collapses to
/// the one user-facing message and leaves the state untouched, so the
/// loop re-prompts for a path.
pub fn select_image(state: &mut SessionState, text: &str, probe: &ImageProbe) -> (r: Result<
    String,
    String,
>)
    requires
        old(state).wf(),
    ensures
        final(state).wf(),
        final(state).scenario == old(state).scenario,
        final(state).dpi == old(state).dpi,
        final(state).final_width == old(state).final_width,
        final(state).final_height == old(state).final_height,
        final(state).outcome == old(state).outcome,
        match *probe {
            ImageProbe::Found { width, height } => final(state).image is Some && final(
                state).image->0@ == trim_of(text@) && final(state).native_image_width == Some(width)
                && final(state).native_image_height == Some(height) && r is Ok && r->Ok_0@
                == "Ok, we can resize that image."@,
            ImageProbe::NotFound => *final(state) == *old(state) && r is Err && r->Err_0@
                == "Could not open file as an image."@,
            ImageProbe::Undecodable => *final(state) == *old(state) && r is Err && r->Err_0@
                == "Could not open file as an image."@,
        },
{
    match probe {
        ImageProbe::Found { width, height } => {
            let path = trim_utterance(text);
            state.native_image_width = Some(*width);
            state.native_image_height = Some(*height);
            state.image = Some(path);
            Ok(String::from_str("Ok, we can resize that image."))
        },
        ImageProbe::NotFound => Err(String::from_str("Could not open file as an image.")),
        ImageProbe::Undecodable => Err(String::from_str("Could not open file as an image.")),
    }
}

/// Extracts and classifies the dimensions in the utterance.
///
/// Exactly one extracted phrase that classifies cleanly is stored as the
/// scenario; zero or several phrases leave the state untouched with a
/// clarifying message; a phrase whose tokens do not parse (a unit outside
/// the table, or a number out of machine range) leaves the state
/// untouched with an error.
pub fn get_dimensions(state: &mut SessionState, text: &str) -> (r: Result<String, String>)
    requires
        old(state).wf(),
        old(state).image is Some,
    ensures
        final(state).wf(),
        final(state).image == old(state).image,
        final(state).native_image_width == old(state).native_image_width,
        final(state).native_image_height == old(state).native_image_height,
        final(state).dpi == old(state).dpi,
        final(state).final_width == old(state).final_width,
        final(state).final_height == old(state).final_height,
        final(state).outcome == old(state).outcome,
        spec_extract(text@).len() != 1 ==> *final(state) == *old(state) && r is Ok && r->Ok_0@
            == "Sorry, I'm confused what dimensions you want to use."@,
        spec_extract(text@).len() == 1 ==> match crate::resize::spec_classify(
            spec_extract(text@)[0],
        ) {
            Ok(sv) => final(state).scenario is Some && final(state).scenario->0@ == sv && r is Ok
                && r->Ok_0@ == Seq::<char>::empty(),
            Err(_) => *final(state) == *old(state) && r is Err && r->Err_0@
                == "Could not read the dimensions from your input."@,
        },
{
    let mut details = parse_resize_details(text);
    if details.len() == 1 {
        let rec = details.remove(0);
        proof {
            assert(rec@ == spec_extract(text@)[0]);
        }
        match rec.scenario() {
            Ok(sc) => {
                state.scenario = Some(sc);
                Ok(String::new())
            },
            Err(_) => Err(String::from_str("Could not read the dimensions from your input.")),
        }
    } else {
        Ok(String::from_str("Sorry, I'm confused what dimensions you want to use."))
    }
}

/// The integer a DPI utterance denotes: an optional sign followed by
/// digits, with a magnitude of at most `i32::MAX`.
pub open spec fn dpi_of(s: Seq<char>) -> Option<int> {
    if s.len() >= 1 && s[0] == '-' {
        let rest = s.subrange(1, s.len() as int);
        if crate::num::is_int_token(rest) && crate::num::digits_val(rest) <= i32::MAX {
            Some(-crate::num::digits_val(rest))
        } else {
            None
        }
    } else if s.len() >= 1 && s[0] == '+' {
        let rest = s.subrange(1, s.len() as int);
        if crate::num::is_int_token(rest) && crate::num::digits_val(rest) <= i32::MAX {
            Some(crate::num::digits_val(rest))
        } else {
            None
        }
    } else {
        if crate::num::is_int_token(s) && crate::num::digits_val(s) <= i32::MAX {
            Some(crate::num::digits_val(s))
        } else {
            None
        }
    }
}

/// Stores the DPI the utterance names, or reports why it cannot be read.
pub fn parse_dpi(state: &mut SessionState, text: &str) -> (r: Result<String, String>)
    requires
        old(state).wf(),
    ensures
        final(state).wf(),
        final(state).image == old(state).image,
        final(state).native_image_width == old(state).native_image_width,
        final(state).native_image_height == old(state).native_image_height,
        final(state).scenario == old(state).scenario,
        final(state).final_width == old(state).final_width,
        final(state).final_height == old(state).final_height,
        final(state).outcome == old(state).outcome,
        match dpi_of(text@) {
            Some(v) => final(state).dpi == Some(v as i32) && r is Ok,
            None => *final(state) == *old(state) && r is Err && r->Err_0@
                == "Could not read DPI from your input."@,
        },
{
    let n = text.unicode_len();
    let parsed: Option<i32> = if n >= 1 && text.get_char(0) == '-' {
        match crate::num::parse_i32(text.substring_char(1, n)) {
            Ok(v) => Some(-v),
            Err(_) => None,
        }
    } else if n >= 1 && text.get_char(0) == '+' {
        match crate::num::parse_i32(text.substring_char(1, n)) {
            Ok(v) => Some(v),
            Err(_) => None,
        }
    } else {
        match crate::num::parse_i32(text) {
            Ok(v) => Some(v),
            Err(_) => None,
        }
    };
    match parsed {
        Some(v) => {
            state.dpi = Some(v);
            Ok(v.to_string())
        },
        None => Err(String::from_str("Could not read DPI from your input.")),
    }
}

/// Clears the scenario and the DPI, returning the session to dimension
/// collection after a fractional-pixel rejection.
pub fn reenter_dimensions(state: &mut SessionState, _text: &str) -> (r: Result<String, String>)
    requires
        old(state).wf(),
    ensures
        final(state).wf(),
        final(state).image == old(state).image,
        final(state).native_image_width == old(state).native_image_width,
        final(state).native_image_height == old(state).native_image_height,
        final(state).scenario is None,
        final(state).dpi is None,
        final(state).final_width == old(state).final_width,
        final(state).final_height == old(state).final_height,
        final(state).outcome == old(state).outcome,
        r is Ok && r->Ok_0@ == Seq::<char>::empty(),
{
    state.scenario = None;
    state.dpi = None;
    Ok(String::new())
}

/// Leaves the state untouched.
pub fn noop(state: &mut SessionState, _text: &str) -> (r: Result<String, String>)
    ensures
        *final(state) == *old(state),
        r is Ok && r->Ok_0@ == Seq::<char>::empty(),
{
    Ok(String::new())
}

/// Settles the session: a confirming utterance completes it with the
/// computed final size, anything else cancels it.
pub fn confirm_plan(state: &mut SessionState, text: &str) -> (r: Result<String, String>)
    requires
        old(state).wf(),
        old(state).final_width is Some,
        old(state).final_height is Some,
    ensures
        final(state).wf(),
        final(state).image == old(state).image,
        final(state).native_image_width == old(state).native_image_width,
        final(state).native_image_height == old(state).native_image_height,
        final(state).scenario == old(state).scenario,
        final(state).dpi == old(state).dpi,
        final(state).final_width == old(state).final_width,
        final(state).final_height == old(state).final_height,
        is_yes(text@) ==> final(state).outcome == Some(
            SessionOutcome::Completed {
                width: old(state).final_width->0,
                height: old(state).final_height->0,
            },
        ) && r is Ok && r->Ok_0@ == "Ok. Complete. (simulated)"@,
        !is_yes(text@) ==> final(state).outcome == Some(SessionOutcome::Cancelled) && r is Ok
            && r->Ok_0@ == "Canceling workflow."@,
{
    if utterance_is_yes(text) {
        let w = match &state.final_width {
            Some(w) => *w,
            None => 0,
        };
        let h = match &state.final_height {
            Some(h) => *h,
            None => 0,
        };
        state.outcome = Some(SessionOutcome::Completed { width: w, height: h });
        Ok(String::from_str("Ok. Complete. (simulated)"))
    } else {
        state.outcome = Some(SessionOutcome::Cancelled);
        Ok(String::from_str("Canceling workflow."))
    }
}

impl SessionState {
    /// Computes the next prompt and the handler for the next utterance.
    ///
    /// Total over every well-formed, unfinished state: the prompt is never
    /// empty, and the handler is `SelectImage` exactly while no image is
    /// stored — no later step returns to image selection, since no handler
    /// clears the stored image.  Where the session is ready to confirm,
    /// the final pixel size is computed and stored here.
    pub fn handle(&mut self) -> (r: (String, Handler))
        requires
            old(self).wf(),
            old(self).outcome is None,
        ensures
            final(self).wf(),
            final(self).image == old(self).image,
            final(self).native_image_width == old(self).native_image_width,
            final(self).native_image_height == old(self).native_image_height,
            final(self).scenario == old(self).scenario,
            final(self).dpi == old(self).dpi,
            final(self).outcome is None,
            r.0@.len() > 0,
            r.1 == Handler::SelectImage <==> old(self).image is None,
            old(self).image is None ==> *final(self) == *old(self) && r.0@
                == "What image would you like to resize?"@,
            old(self).image is Some && old(self).scenario is None ==> *final(self) == *old(self)
                && r.1 == Handler::GetDimensions && r.0@
                == "What dimensions do you want for the resized image?"@,
            match old(self).scenario {
                Some(ResizeScenario::ClarifyUnit(_)) => *final(self) == *old(self) && r.1
                    == Handler::Noop && r.0@
                    == "Sorry, I'm not exactly sure what unit you want to use."@,
                Some(ResizeScenario::FractionalPixels(_)) => *final(self) == *old(self) && r.1
                    == Handler::ReenterDimensions && r.0@
                    == "You should use whole pixel values for your dimensions or specify a different unit."@,
                Some(ResizeScenario::PhysicalResize(d)) => if old(self).dpi is None {
                    *final(self) == *old(self) && r.1 == Handler::ParseDpi && r.0@
                        == "What dpi value do you want? (300 is ideal)"@
                } else {
                    r.1 == Handler::ConfirmPlan && final(self).final_width == Some(
                        clamp_i32(
                            physical_pixels(
                                d.w.mantissa as int,
                                d.w.scale as nat,
                                d.unit,
                                old(self).dpi->0 as int,
                            ),
                        ) as i32,
                    ) && final(self).final_height == Some(
                        clamp_i32(
                            physical_pixels(
                                d.h.mantissa as int,
                                d.h.scale as nat,
                                d.unit,
                                old(self).dpi->0 as int,
                            ),
                        ) as i32,
                    ) && r.0@ == plan_prompt(
                        old(self).image->0@,
                        final(self).final_width->0 as int,
                        final(self).final_height->0 as int,
                        false,
                    )
                },
                Some(ResizeScenario::PixelResize(d)) => r.1 == Handler::ConfirmPlan && final(
                    self).final_width == Some(d.w) && final(self).final_height == Some(d.h) && r.0@
                    == plan_prompt(old(self).image->0@, d.w as int, d.h as int, true),
                None => true,
            },
    {
        if self.image.is_none() {
            proof {
                reveal_strlit("What image would you like to resize?");
            }
            return (String::from_str("What image would you like to resize?"), Handler::SelectImage);
        }
        match &self.scenario {
            None => {
                proof {
                    reveal_strlit("What dimensions do you want for the resized image?");
                }
                return (
                    String::from_str("What dimensions do you want for the resized image?"),
                    Handler::GetDimensions,
                );
            },
            Some(ResizeScenario::ClarifyUnit(_)) => {
                proof {
                    reveal_strlit("Sorry, I'm not exactly sure what unit you want to use.");
                }
                return (
                    String::from_str("Sorry, I'm not exactly sure what unit you want to use."),
                    Handler::Noop,
                );
            },
            Some(ResizeScenario::FractionalPixels(_)) => {
                proof {
                    reveal_strlit(
                        "You should use whole pixel values for your dimensions or specify a different unit.",
                    );
                }
                return (
                    String::from_str(
                        "You should use whole pixel values for your dimensions or specify a different unit.",
                    ),
                    Handler::ReenterDimensions,
                );
            },
            Some(ResizeScenario::PhysicalResize(d)) => {
                if self.dpi.is_none() {
                    proof {
                        reveal_strlit("What dpi value do you want? (300 is ideal)");
                    }
                    return (
                        String::from_str("What dpi value do you want? (300 is ideal)"),
                        Handler::ParseDpi,
                    );
                }
                let dd = *d;
                let dpi = match &self.dpi {
                    Some(v) => *v,
                    None => 0,
                };
                let pw = physical_to_pixels(&dd.w, &dd.unit, dpi);
                let ph = physical_to_pixels(&dd.h, &dd.unit, dpi);
                self.final_width = Some(pw);
                self.final_height = Some(ph);
                let mut prompt = String::from_str("Ok. I can resize ");
                match &self.image {
                    Some(p) => prompt.append(p.as_str()),
                    None => {},
                }
                prompt.append(" to ");
                prompt.append(i32_to_string(pw).as_str());
                prompt.append(" x ");
                prompt.append(i32_to_string(ph).as_str());
                prompt.append(" pixels. Do you want me to do this for you?");
                proof {
                    reveal_strlit("Ok. I can resize ");
                }
                return (prompt, Handler::ConfirmPlan);
            },
            Some(ResizeScenario::PixelResize(d)) => {
                let dd = *d;
                self.final_width = Some(dd.w);
                self.final_height = Some(dd.h);
                let mut prompt = String::from_str("Ok. I can resize ");
                match &self.image {
                    Some(p) => prompt.append(p.as_str()),
                    None => {},
                }
                prompt.append(" to ");
                prompt.append(i32_to_string(dd.w).as_str());
                prompt.append(" x ");
                prompt.append(i32_to_string(dd.h).as_str());
                prompt.append(" pixels for you. Do you want me to do this for you?");
                proof {
                    reveal_strlit("Ok. I can resize ");
                }
                return (prompt, Handler::ConfirmPlan);
            },
        }
    }
}

} // verus!
