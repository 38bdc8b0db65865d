//! The logic of the bundled producer scripts: what they read off system
//! files and command lines, and the text each sends to its slot.

use vstd::prelude::*;

use crate::text::{chars_of, is_space, is_whitespace, split_words, string_of, views, words};
use crate::wire::{get_socket_addr, socket_addr_of};

verus! {

/// `s` without its white space.
pub open spec fn without_space(s: Seq<char>) -> Seq<char>
    decreases s.len(),
{
    if s.len() == 0 {
        s
    } else if is_space(s.last()) {
        without_space(s.drop_last())
    } else {
        without_space(s.drop_last()).push(s.last())
    }
}

/// `string` with every white-space character taken out.
pub fn remove_whitespace(string: String) -> (r: String)
    ensures
        r@ == without_space(string@),
{
    let cs = chars_of(string.as_str());
    let mut out: Vec<char> = Vec::new();
    let mut i: usize = 0;
    while i < cs.len()
        invariant
            i <= cs.len(),
            cs@ == string@,
            out@ == without_space(cs@.take(i as int)),
        decreases cs.len() - i,
    {
        proof {
            assert(cs@.take(i + 1).drop_last() =~= cs@.take(i as int));
        }
        if !is_whitespace(cs[i]) {
            out.push(cs[i]);
        }
        i = i + 1;
    }
    proof {
        assert(cs@.take(cs.len() as int) =~= cs@);
    }
    string_of(out.as_slice())
}

/// The decimal digit for `d`, below ten.
pub open spec fn digit_char(d: nat) -> char {
    if d == 0 {
        '0'
    } else if d == 1 {
        '1'
    } else if d == 2 {
        '2'
    } else if d == 3 {
        '3'
    } else if d == 4 {
        '4'
    } else if d == 5 {
        '5'
    } else if d == 6 {
        '6'
    } else if d == 7 {
        '7'
    } else if d == 8 {
        '8'
    } else {
        '9'
    }
}

/// The decimal digits of `n`, without leading zeros.
pub open spec fn digits_of(n: nat) -> Seq<char>
    decreases n,
{
    if n < 10 {
        seq![digit_char(n)]
    } else {
        digits_of(n / 10).push(digit_char(n % 10))
    }
}

/// `n` in decimal, with a `'-'` when negative.
pub open spec fn decimal(n: int) -> Seq<char> {
    if n < 0 {
        seq!['-'] + digits_of((-n) as nat)
    } else {
        digits_of(n as nat)
    }
}

fn digit(d: u64) -> (c: char)
    requires
        d < 10,
    ensures
        c == digit_char(d as nat),
{
    if d == 0 {
        '0'
    } else if d == 1 {
        '1'
    } else if d == 2 {
        '2'
    } else if d == 3 {
        '3'
    } else if d == 4 {
        '4'
    } else if d == 5 {
        '5'
    } else if d == 6 {
        '6'
    } else if d == 7 {
        '7'
    } else if d == 8 {
        '8'
    } else {
        '9'
    }
}

fn digits(n: u64) -> (r: Vec<char>)
    ensures
        r@ == digits_of(n as nat),
    decreases n,
{
    if n < 10 {
        let mut r: Vec<char> = Vec::new();
        r.push(digit(n));
        proof {
            assert(r@ =~= digits_of(n as nat));
        }
        r
    } else {
        let mut r = digits(n / 10);
        r.push(digit(n % 10));
        r
    }
}

/// The characters of `n` in decimal.
fn decimal_chars(n: i32) -> (r: Vec<char>)
    ensures
        r@ == decimal(n as int),
{
    if n < 0 {
        let m: u64 = (-(n as i64)) as u64;
        let mut r: Vec<char> = Vec::new();
        r.push('-');
        let mut d = digits(m);
        r.append(&mut d);
        proof {
            assert(r@ =~= decimal(n as int));
        }
        r
    } else {
        digits(n as u64)
    }
}

/// `n` in decimal, as `format!("{}", n)` writes it.
pub fn decimal_text(n: i32) -> (r: String)
    ensures
        r@ == decimal(n as int),
{
    let cs = decimal_chars(n);
    string_of(cs.as_slice())
}

/// Whether `c` is a decimal digit.
pub open spec fn is_digit(c: char) -> bool {
    '0' <= c <= '9'
}

/// The value of the digits `d`, most significant first.
pub open spec fn digits_value(d: Seq<char>) -> int
    decreases d.len(),
{
    if d.len() == 0 {
        0
    } else {
        digits_value(d.drop_last()) * 10 + ((d.last() as u32) - ('0' as u32))
    }
}

/// Whether `s` starts with a sign.
pub open spec fn has_sign(s: Seq<char>) -> bool {
    s.len() > 0 && (s[0] == '-' || s[0] == '+')
}

/// `s` less its sign, if it has one.
pub open spec fn unsigned_part(s: Seq<char>) -> Seq<char> {
    if has_sign(s) {
        s.drop_first()
    } else {
        s
    }
}

/// Whether every character of `d` is a decimal digit.
pub open spec fn all_digits(d: Seq<char>) -> bool {
    forall|i: int| 0 <= i < d.len() ==> is_digit(#[trigger] d[i])
}

/// The integer that `s` writes, as `str::parse` reads one: an optional sign,
/// then one digit or more, and nothing else.
pub open spec fn int_text_value(s: Seq<char>) -> Option<int> {
    let d = unsigned_part(s);
    if d.len() > 0 && all_digits(d) {
        Some(
            if has_sign(s) && s[0] == '-' {
                -digits_value(d)
            } else {
                digits_value(d)
            },
        )
    } else {
        None
    }
}

/// What `s.parse::<i32>()` gives: the integer `s` writes, if `i32` holds it.
pub open spec fn i32_of(s: Seq<char>) -> Option<i32> {
    match int_text_value(s) {
        Some(v) => if i32::MIN <= v <= i32::MAX {
            Some(v as i32)
        } else {
            None
        },
        None => None,
    }
}

proof fn lemma_digits_value_grows(d: Seq<char>, k: int)
    requires
        0 <= k <= d.len(),
        forall|i: int| 0 <= i < d.len() ==> is_digit(#[trigger] d[i]),
    ensures
        digits_value(d) >= digits_value(d.take(k)) >= 0,
    decreases d.len(),
{
    if d.len() > 0 {
        let p = d.drop_last();
        assert forall|i: int| 0 <= i < p.len() implies is_digit(#[trigger] p[i]) by {
            assert(p[i] == d[i]);
        }
        assert(is_digit(d[d.len() - 1]));
        if k == d.len() {
            assert(d.take(k) =~= d);
            lemma_digits_value_grows(p, p.len() as int);
            assert(p.take(p.len() as int) =~= p);
        } else {
            lemma_digits_value_grows(p, k);
            assert(p.take(k) =~= d.take(k));
        }
    } else {
        assert(d.take(k) =~= d);
    }
}

/// Reads the integer that `s` writes, if `i32` holds it.
pub fn parse_i32(s: &str) -> (r: Option<i32>)
    ensures
        r == i32_of(s@),
{
    let cs = chars_of(s);
    let negative = cs.len() > 0 && cs[0] == '-';
    let start: usize = if cs.len() > 0 && (cs[0] == '-' || cs[0] == '+') {
        1
    } else {
        0
    };
    let ghost d = cs@.skip(start as int);
    proof {
        if start == 1 {
            assert(d =~= s@.drop_first());
        } else {
            assert(d =~= s@);
        }
        assert(d == unsigned_part(s@));
        assert(negative == (has_sign(s@) && s@[0] == '-'));
    }
    if start == cs.len() {
        return None;
    }
    let mut acc: i64 = 0;
    let mut i: usize = start;
    while i < cs.len()
        invariant
            start <= i <= cs.len(),
            cs@ == s@,
            d == cs@.skip(start as int),
            d == unsigned_part(s@),
            negative == (has_sign(s@) && s@[0] == '-'),
            0 <= acc <= 2147483648,
            acc == digits_value(d.take(i - start)),
            forall|j: int| 0 <= j < i - start ==> is_digit(#[trigger] d[j]),
        decreases cs.len() - i,
    {
        let c = cs[i];
        proof {
            assert(d[i - start] == c);
            assert(d.take(i - start + 1).drop_last() =~= d.take(i - start));
        }
        if !('0' <= c && c <= '9') {
            proof {
                assert(!is_digit(d[i - start]));
                assert(!all_digits(d));
            }
            return None;
        }
        acc = acc * 10 + ((c as u32) - ('0' as u32)) as i64;
        proof {
            assert(d.take(i - start + 1).last() == c);
            assert(acc == digits_value(d.take(i - start + 1)));
        }
        if acc > 2147483648 {
            proof {
                if all_digits(d) {
                    lemma_digits_value_grows(d, i - start + 1);
                    assert(digits_value(d) > 2147483648);
                }
            }
            return None;
        }
        i = i + 1;
    }
    proof {
        assert(d.take(i - start) =~= d);
        assert(all_digits(d));
    }
    if negative {
        Some((-acc) as i32)
    } else if acc <= 2147483647 {
        Some(acc as i32)
    } else {
        None
    }
}

/// Why the battery script has nothing to send.
#[derive(Debug, Clone, Copy, PartialEq, Eq)]
pub enum BatteryFailure {
    /// The capacity file could not be read.
    BadCapacity,
    /// The status file could not be read.
    BadStatus,
    /// The capacity is not an integer.
    ParseError,
}

/// The battery's slot text for `capacity` percent in state `status`: a
/// charging glyph unless discharging, else a glyph for the charge left.
pub open spec fn battery_text(capacity: i32, status: Seq<char>) -> Seq<char> {
    let pct = decimal(capacity as int).push('%');
    if status != "Discharging"@ {
        seq!['\u{f1e6}', ' '] + pct
    } else if capacity > 95 {
        seq!['\u{f240}'] + pct
    } else if capacity > 75 {
        seq!['\u{f241}', ' '] + pct
    } else if capacity > 50 {
        seq!['\u{f242}', ' '] + pct
    } else if capacity > 25 {
        seq!['\u{f243}', ' '] + pct
    } else if capacity > 0 {
        seq!['\u{f244}', ' '] + pct
    } else {
        seq!['?', ' '] + decimal(capacity as int)
    }
}

/// The battery's slot text for `battery_capacity` percent in state
/// `battery_status`.
pub fn get_battery_string(battery_capacity: i32, battery_status: String) -> (r: String)
    ensures
        r@ == battery_text(battery_capacity, battery_status@),
{
    let discharging = battery_status == "Discharging".to_owned();
    proof {
        reveal_strlit("Discharging");
    }
    let mut out: Vec<char> = Vec::new();
    if !discharging {
        out.push('\u{f1e6}');
        out.push(' ');
    } else if battery_capacity > 95 {
        out.push('\u{f240}');
    } else if battery_capacity > 75 {
        out.push('\u{f241}');
        out.push(' ');
    } else if battery_capacity > 50 {
        out.push('\u{f242}');
        out.push(' ');
    } else if battery_capacity > 25 {
        out.push('\u{f243}');
        out.push(' ');
    } else if battery_capacity > 0 {
        out.push('\u{f244}');
        out.push(' ');
    } else {
        out.push('?');
        out.push(' ');
    }
    let ghost head = out@;
    let mut number = decimal_chars(battery_capacity);
    out.append(&mut number);
    if !discharging || battery_capacity > 0 {
        out.push('%');
    }
    proof {
        let d = decimal(battery_capacity as int);
        if !discharging || battery_capacity > 0 {
            assert(out@ =~= head + d.push('%'));
        } else {
            assert(out@ =~= head + d);
        }
    }
    string_of(out.as_slice())
}

/// The slot text for a battery whose files read `capacity_file` and
/// `status_file` (`None` where a file could not be read), white space aside.
pub fn get_battery_status(capacity_file: Option<String>, status_file: Option<String>) -> (r: Result<
    String,
    BatteryFailure,
>)
    ensures
        capacity_file is None ==> r == Err::<String, BatteryFailure>(BatteryFailure::BadCapacity),
        capacity_file matches Some(c) ==> match i32_of(without_space(c@)) {
            None => r == Err::<String, BatteryFailure>(BatteryFailure::ParseError),
            Some(capacity) => match status_file {
                None => r == Err::<String, BatteryFailure>(BatteryFailure::BadStatus),
                Some(st) => (r matches Ok(t) && t@ == battery_text(capacity, without_space(st@))),
            },
        },
{
    let capacity_text = match capacity_file {
        Some(c) => remove_whitespace(c),
        None => return Err(BatteryFailure::BadCapacity),
    };
    let capacity = match parse_i32(capacity_text.as_str()) {
        Some(c) => c,
        None => return Err(BatteryFailure::ParseError),
    };
    let status = match status_file {
        Some(st) => remove_whitespace(st),
        None => return Err(BatteryFailure::BadStatus),
    };
    Ok(get_battery_string(capacity, status))
}

/// How the brightness script is asked to change the brightness.
#[derive(Debug, Clone, Copy, PartialEq, Eq)]
pub enum BrightnessCommand {
    Increase,
    Decrease,
    /// Leave it as it is.
    Unchanged,
}

/// The brightness change that the command option names: `"increase"`,
/// `"decrease"`, or no change for anything else or nothing.
pub fn get_brightness_command(maybe_command: Option<String>) -> (r: BrightnessCommand)
    ensures
        r == match maybe_command {
            Some(c) => if c@ == "increase"@ {
                BrightnessCommand::Increase
            } else if c@ == "decrease"@ {
                BrightnessCommand::Decrease
            } else {
                BrightnessCommand::Unchanged
            },
            None => BrightnessCommand::Unchanged,
        },
{
    match maybe_command {
        Some(command) => {
            if command == "increase".to_owned() {
                BrightnessCommand::Increase
            } else if command == "decrease".to_owned() {
                BrightnessCommand::Decrease
            } else {
                BrightnessCommand::Unchanged
            }
        },
        None => BrightnessCommand::Unchanged,
    }
}

/// How the volume script is asked to change the volume.
#[derive(Debug, Clone, Copy, PartialEq, Eq)]
pub enum VolumeCommand {
    Increase,
    Decrease,
    /// Toggle muting.
    Mute,
    /// Leave it as it is.
    Unchanged,
}

/// The volume change that the command option names: `"increase"`,
/// `"decrease"`, `"mute"`, or no change for anything else or nothing.
pub fn get_volume_command(maybe_command: Option<&str>) -> (r: VolumeCommand)
    ensures
        r == match maybe_command {
            Some(c) => if c@ == "increase"@ {
                VolumeCommand::Increase
            } else if c@ == "decrease"@ {
                VolumeCommand::Decrease
            } else if c@ == "mute"@ {
                VolumeCommand::Mute
            } else {
                VolumeCommand::Unchanged
            },
            None => VolumeCommand::Unchanged,
        },
{
    match maybe_command {
        Some(command) => {
            let command = command.to_owned();
            if command == "increase".to_owned() {
                VolumeCommand::Increase
            } else if command == "decrease".to_owned() {
                VolumeCommand::Decrease
            } else if command == "mute".to_owned() {
                VolumeCommand::Mute
            } else {
                VolumeCommand::Unchanged
            }
        },
        None => VolumeCommand::Unchanged,
    }
}

/// Why the volume script has nothing to send.
#[derive(Debug, Clone, Copy, PartialEq, Eq)]
pub enum PulseError {
    /// The sound server has no main device.
    MainDevice,
    /// The mute state could not be changed.
    Mute,
    /// The volume shows no percentage.
    NoPercentage,
}

/// The sound level and whether it is muted.
#[derive(Debug, Clone, PartialEq, Eq)]
pub struct Volume {
    pub level: String,
    pub muted: bool,
}

impl Volume {
    /// The slot text: a glyph for muted or not, a space, and the level.
    pub open spec fn text(&self) -> Seq<char> {
        (if self.muted {
            seq!['\u{f05e}', ' ']
        } else {
            seq!['\u{f028}', ' ']
        }) + self.level@
    }

    /// The volume's slot text.
    pub fn print(&self) -> (r: String)
        ensures
            r@ == self.text(),
    {
        let mut out: Vec<char> = Vec::new();
        if self.muted {
            out.push('\u{f05e}');
        } else {
            out.push('\u{f028}');
        }
        out.push(' ');
        let mut r = string_of(out.as_slice());
        r.append(self.level.as_str());
        r
    }
}

/// The first of `ws` that holds a `'%'`.
pub open spec fn first_percentage(ws: Seq<Seq<char>>) -> Option<Seq<char>>
    decreases ws.len(),
{
    if ws.len() == 0 {
        None
    } else if ws[0].contains('%') {
        Some(ws[0])
    } else {
        first_percentage(ws.drop_first())
    }
}

/// Whether `s` holds `c`.
fn holds_char(s: &str, c: char) -> (r: bool)
    ensures
        r == s@.contains(c),
{
    let cs = chars_of(s);
    let mut i: usize = 0;
    while i < cs.len()
        invariant
            i <= cs.len(),
            cs@ == s@,
            forall|j: int| 0 <= j < i ==> cs@[j] != c,
        decreases cs.len() - i,
    {
        if cs[i] == c {
            return true;
        }
        i = i + 1;
    }
    false
}

/// The first word of a device's volume description that holds a `'%'`.
pub fn get_percentage(volume_string: String) -> (r: Result<String, PulseError>)
    ensures
        match first_percentage(words(volume_string@)) {
            Some(w) => (r matches Ok(p) && p@ == w),
            None => r == Err::<String, PulseError>(PulseError::NoPercentage),
        },
{
    let ws = split_words(volume_string.as_str());
    let ghost all = views(ws@);
    let mut i: usize = 0;
    proof {
        assert(all.skip(0) =~= all);
    }
    while i < ws.len()
        invariant
            i <= ws.len(),
            all == views(ws@),
            all == words(volume_string@),
            first_percentage(all.skip(i as int)) == first_percentage(all),
        decreases ws.len() - i,
    {
        proof {
            assert(all.skip(i as int).drop_first() =~= all.skip(i + 1));
            assert(all.skip(i as int)[0] == ws@[i as int]@);
        }
        if holds_char(ws[i].as_str(), '%') {
            return Ok(ws[i].clone());
        }
        i = i + 1;
    }
    proof {
        assert(all.skip(i as int) =~= Seq::<Seq<char>>::empty());
    }
    Err(PulseError::NoPercentage)
}

/// What a producer script is told on its command line: the socket of the
/// server it reports to, the slot it fills, and an optional command.
#[derive(Debug, Clone, PartialEq, Eq)]
pub struct AppContext {
    pub socket_addr: String,
    pub block: String,
    pub command: Option<String>,
}

impl AppContext {
    /// The context of a script that reports to server `id`.
    pub fn new(id: &str, block: String, command: Option<String>) -> (r: AppContext)
        ensures
            r.socket_addr@ == socket_addr_of(id@),
            r.block == block,
            r.command == command,
    {
        AppContext { socket_addr: get_socket_addr(id), block, command }
    }
}

} // verus!
