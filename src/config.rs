//! Settings, read once at startup from named text values. Every missing or
//! malformed value is reported, not only the first.

use vstd::prelude::*;
use crate::number::{is_digit, is_float_literal, is_float_text};

verus! {

/// The value of a string of decimal digits.
pub open spec fn digits_value(d: Seq<char>) -> nat
    decreases d.len(),
{
    if d.len() == 0 {
        0
    } else {
        digits_value(d.drop_last()) * 10 + ((d.last() as u32) as int - 48) as nat
    }
}

pub open spec fn all_digits(d: Seq<char>) -> bool {
    forall|i: int| 0 <= i < d.len() ==> is_digit(#[trigger] d[i])
}

/// `s` without one leading `+`, if it has one.
pub open spec fn without_plus(s: Seq<char>) -> Seq<char> {
    if s.len() > 0 && s[0] == '+' {
        s.drop_first()
    } else {
        s
    }
}

/// The value of `s` as `str::parse` reads a `u32`: an optional `+`, then at
/// least one digit, with a value that fits.
pub open spec fn u32_of(s: Seq<char>) -> Option<u32> {
    let d = without_plus(s);
    if d.len() > 0 && all_digits(d) && digits_value(d) <= u32::MAX {
        Some(digits_value(d) as u32)
    } else {
        None
    }
}

/// Reads a `u32` written in decimal; `None` where `s` is not one.
pub fn parse_u32(s: &str) -> (r: Option<u32>)
    ensures
        r == u32_of(s@),
{
    let n = s.unicode_len();
    let mut lo: usize = 0;
    if n > 0 && s.get_char(0) == '+' {
        lo = 1;
    }
    let ghost d = without_plus(s@);
    assert(d =~= s@.subrange(lo as int, n as int));
    if lo == n {
        return None;
    }
    let mut acc: u64 = 0;
    let mut too_big = false;
    let mut i: usize = lo;
    assert(d.take(0) =~= Seq::<char>::empty());
    while i < n
        invariant
            lo <= i <= n == s@.len(),
            d == s@.subrange(lo as int, n as int),
            d == without_plus(s@),
            forall|j: int| 0 <= j < i - lo ==> is_digit(#[trigger] d[j]),
            !too_big ==> acc == digits_value(d.take(i - lo)) && acc <= u32::MAX,
            too_big ==> digits_value(d.take(i - lo)) > u32::MAX,
        decreases n - i,
    {
        let c = s.get_char(i);
        assert(d[i - lo] == c);
        if !('0' <= c && c <= '9') {
            assert(!is_digit(d[i - lo]));
            assert(!all_digits(d));
            return None;
        }
        let ghost k = i - lo;
        assert(d.take(k + 1).drop_last() =~= d.take(k));
        assert(d.take(k + 1).last() == c);
        if !too_big {
            let v = acc * 10 + ((c as u32) - 48) as u64;
            if v > 4294967295 {
                too_big = true;
            } else {
                acc = v;
            }
        }
        i = i + 1;
    }
    assert(d.take(n - lo) =~= d);
    if too_big {
        None
    } else {
        Some(acc as u32)
    }
}

/// A named setting.
#[derive(Clone, Copy, Debug, PartialEq, Eq, Structural)]
pub enum Setting {
    Lat,
    Lng,
    Radius,
    BotToken,
    ChatId,
}

/// Why a setting could not be used.
#[derive(Clone, Copy, Debug, PartialEq, Eq, Structural)]
pub enum SettingError {
    Missing(Setting),
    Invalid(Setting),
}

/// The settings of a run. `lat` and `lng`, the centre of the polled area,
/// are float literals; `radius` is in meters.
pub struct Settings {
    pub lat: String,
    pub lng: String,
    pub radius: u32,
    pub bot_token: String,
    pub chat_id: String,
}

/// The problem with a coordinate value, if any.
pub open spec fn coordinate_error(v: Option<String>, which: Setting) -> Option<SettingError> {
    match v {
        None => Some(SettingError::Missing(which)),
        Some(s) => if is_float_literal(s@) {
            None
        } else {
            Some(SettingError::Invalid(which))
        },
    }
}

pub open spec fn radius_error(v: Option<String>) -> Option<SettingError> {
    match v {
        None => Some(SettingError::Missing(Setting::Radius)),
        Some(s) => if u32_of(s@) is Some {
            None
        } else {
            Some(SettingError::Invalid(Setting::Radius))
        },
    }
}

pub open spec fn presence_error(v: Option<String>, which: Setting) -> Option<SettingError> {
    match v {
        None => Some(SettingError::Missing(which)),
        Some(_) => None,
    }
}

pub open spec fn present(e: Option<SettingError>) -> Seq<SettingError> {
    match e {
        Some(x) => seq![x],
        None => Seq::empty(),
    }
}

/// Every problem with the given values, in the order of the settings.
pub open spec fn setting_errors(
    lat: Option<String>,
    lng: Option<String>,
    radius: Option<String>,
    bot_token: Option<String>,
    chat_id: Option<String>,
) -> Seq<SettingError> {
    present(coordinate_error(lat, Setting::Lat)) + present(coordinate_error(lng, Setting::Lng))
        + present(radius_error(radius)) + present(presence_error(bot_token, Setting::BotToken))
        + present(presence_error(chat_id, Setting::ChatId))
}

fn add_error(errors: &mut Vec<SettingError>, e: Option<SettingError>)
    ensures
        final(errors)@ == old(errors)@ + present(e),
{
    match e {
        Some(x) => {
            errors.push(x);
            assert(final(errors)@ =~= old(errors)@ + seq![x]);
        },
        None => {
            assert(errors@ =~= old(errors)@ + Seq::<SettingError>::empty());
        },
    }
}

fn check_coordinate(v: &Option<String>, which: Setting) -> (r: Option<SettingError>)
    ensures
        r == coordinate_error(*v, which),
{
    match v {
        None => Some(SettingError::Missing(which)),
        Some(s) => if is_float_text(s.as_str()) {
            None
        } else {
            Some(SettingError::Invalid(which))
        },
    }
}

fn check_presence(v: &Option<String>, which: Setting) -> (r: Option<SettingError>)
    ensures
        r == presence_error(*v, which),
{
    match v {
        None => Some(SettingError::Missing(which)),
        Some(_) => None,
    }
}

/// The settings from their text values (`None` for a value that is not
/// set), or every problem with them, in the order of the settings.
pub fn load_settings(
    lat: Option<String>,
    lng: Option<String>,
    radius: Option<String>,
    bot_token: Option<String>,
    chat_id: Option<String>,
) -> (r: Result<Settings, Vec<SettingError>>)
    ensures
        match r {
            Ok(s) => setting_errors(lat, lng, radius, bot_token, chat_id).len() == 0 && lat
                == Some(s.lat) && lng == Some(s.lng) && u32_of(radius->0@) == Some(s.radius)
                && bot_token == Some(s.bot_token) && chat_id == Some(s.chat_id),
            Err(es) => es@ == setting_errors(lat, lng, radius, bot_token, chat_id) && es@.len()
                > 0,
        },
{
    let mut errors: Vec<SettingError> = Vec::new();
    add_error(&mut errors, check_coordinate(&lat, Setting::Lat));
    add_error(&mut errors, check_coordinate(&lng, Setting::Lng));
    let radius_value = match &radius {
        None => None,
        Some(s) => parse_u32(s.as_str()),
    };
    let radius_problem = match &radius {
        None => Some(SettingError::Missing(Setting::Radius)),
        Some(_) => match radius_value {
            Some(_) => None,
            None => Some(SettingError::Invalid(Setting::Radius)),
        },
    };
    add_error(&mut errors, radius_problem);
    add_error(&mut errors, check_presence(&bot_token, Setting::BotToken));
    add_error(&mut errors, check_presence(&chat_id, Setting::ChatId));
    assert(errors@ =~= Seq::<SettingError>::empty() + setting_errors(
        lat,
        lng,
        radius,
        bot_token,
        chat_id,
    ));
    if errors.len() > 0 {
        return Err(errors);
    }
    match (lat, lng, radius_value, bot_token, chat_id) {
        (Some(la), Some(ln), Some(rv), Some(t), Some(c)) => Ok(
            Settings { lat: la, lng: ln, radius: rv, bot_token: t, chat_id: c },
        ),
        _ => Err(errors),
    }
}

} // verus!
