//! The text side of the system setup: recognising the board from what the
//! kernel reports, and editing the boot files that enable USB OTG.

use vstd::prelude::*;
use crate::setup::{BoardModel, SetupError, otg_overlay_text};
use crate::text;
use crate::text::{has_substring, trim};
use crate::text::ViewEq;

verus! {

/// The texts of a list of lines.
pub open spec fn texts(v: Seq<String>) -> Seq<Seq<char>> {
    v.map_values(|l: String| l@)
}

/// Whether `s` begins with `p`.
pub open spec fn starts_with(s: Seq<char>, p: Seq<char>) -> bool {
    p.len() <= s.len() && s.take(p.len() as int) == p
}

/// Whether the characters of `p` begin `v`.
pub fn chars_start_with(v: &[char], p: &str) -> (r: bool)
    ensures
        r == starts_with(v@, p@),
{
    let w = text::chars_of(p);
    if w.len() > v.len() {
        return false;
    }
    let mut i: usize = 0;
    while i < w.len()
        invariant
            w@ == p@,
            w@.len() <= v@.len(),
            i <= w@.len(),
            forall|j: int| 0 <= j < i ==> v@[j] == w@[j],
        decreases w@.len() - i,
    {
        if v[i] != w[i] {
            assert(v@.take(w@.len() as int)[i as int] != w@[i as int]);
            return false;
        }
        i = i + 1;
    }
    assert(v@.take(w@.len() as int) =~= w@);
    true
}

/// Whether `s` begins with `p` (`str::starts_with`).
pub fn text_starts_with(s: &str, p: &str) -> (r: bool)
    ensures
        r == starts_with(s@, p@),
{
    let v = text::chars_of(s);
    chars_start_with(v.as_slice(), p)
}

/// `s` without leading and trailing white space (`str::trim`).
pub fn trimmed(s: &str) -> (r: String)
    ensures
        r@ == trim(s@),
{
    let v = text::chars_of(s);
    let (a, b) = text::trim_range(v.as_slice(), 0, v.len());
    assert(v@.subrange(0, v@.len() as int) =~= v@);
    text::string_from_range(v.as_slice(), a, b)
}

/// Whether `s`, trimmed, is exactly `t`.
pub fn trims_to(s: &str, t: &str) -> (r: bool)
    ensures
        r == (trim(s@) == t@),
{
    let u = trimmed(s);
    u.as_str().view_eq(t)
}

/// The position of the first line that begins with `p`.
pub open spec fn first_prefixed(lines: Seq<Seq<char>>, p: Seq<char>) -> Option<nat>
    decreases lines.len(),
{
    if lines.len() == 0 {
        None
    } else if starts_with(lines[0], p) {
        Some(0)
    } else {
        match first_prefixed(lines.drop_first(), p) {
            Some(i) => Some(i + 1),
            None => None,
        }
    }
}

/// `first_prefixed` is the index of a line that begins with `p` with no
/// earlier one, or none when no line does.
pub proof fn lemma_first_prefixed_is(lines: Seq<Seq<char>>, p: Seq<char>, i: Option<nat>)
    requires
        match i {
            Some(i) => i < lines.len() && starts_with(lines[i as int], p)
                && forall|j: int| 0 <= j < i ==> !starts_with(#[trigger] lines[j], p),
            None => forall|j: int| 0 <= j < lines.len() ==> !starts_with(#[trigger] lines[j], p),
        },
    ensures
        first_prefixed(lines, p) == i,
    decreases lines.len(),
{
    if lines.len() > 0 && !starts_with(lines[0], p) {
        let rest = lines.drop_first();
        let k: Option<nat> = match i {
            Some(i) => Some((i - 1) as nat),
            None => None,
        };
        assert forall|j: int| 0 <= j < rest.len() implies #[trigger] rest[j] == lines[j + 1] by {}
        match i {
            Some(i) => {
                assert(i > 0);
                assert forall|j: int| 0 <= j < i - 1 implies !starts_with(#[trigger] rest[j], p) by {
                    assert(rest[j] == lines[j + 1]);
                }
            },
            None => {
                assert forall|j: int| 0 <= j < rest.len() implies !starts_with(#[trigger] rest[j], p) by {
                    assert(rest[j] == lines[j + 1]);
                }
            },
        }
        lemma_first_prefixed_is(rest, p, k);
    } else if lines.len() > 0 {
        match i {
            Some(i) => {
                if i > 0 {
                    assert(!starts_with(lines[0], p));
                }
            },
            None => {
                assert(!starts_with(lines[0], p));
            },
        }
    }
}

/// The position of the first line that begins with `p`; see `first_prefixed`.
pub fn find_prefixed(lines: &Vec<String>, p: &str) -> (r: Option<usize>)
    ensures
        match r {
            Some(i) => first_prefixed(texts(lines@), p@) == Some(i as nat) && i < lines@.len()
                && starts_with(lines@[i as int]@, p@),
            None => first_prefixed(texts(lines@), p@) is None,
        },
{
    let ghost t = texts(lines@);
    let mut i: usize = 0;
    while i < lines.len()
        invariant
            i <= lines@.len(),
            t == texts(lines@),
            forall|j: int| 0 <= j < i ==> !starts_with(#[trigger] t[j], p@),
        decreases lines@.len() - i,
    {
        if text_starts_with(lines[i].as_str(), p) {
            proof {
                lemma_first_prefixed_is(t, p@, Some(i as nat));
            }
            return Some(i);
        }
        i = i + 1;
    }
    proof {
        lemma_first_prefixed_is(t, p@, None);
    }
    None
}

/// A copy of the lines.
pub fn copy_lines(lines: &Vec<String>) -> (r: Vec<String>)
    ensures
        texts(r@) == texts(lines@),
{
    let mut r: Vec<String> = Vec::new();
    let mut i: usize = 0;
    while i < lines.len()
        invariant
            i <= lines@.len(),
            texts(r@) == texts(lines@.take(i as int)),
        decreases lines@.len() - i,
    {
        let ghost before = r@;
        r.push(lines[i].clone());
        proof {
            assert(lines@.take(i + 1) =~= lines@.take(i as int).push(lines@[i as int]));
            assert(texts(r@) =~= texts(before).push(lines@[i as int]@));
            assert(texts(lines@.take(i + 1)) =~= texts(lines@.take(i as int)).push(lines@[i as int]@));
        }
        i = i + 1;
    }
    assert(lines@.take(i as int) =~= lines@);
    r
}

/// Whether some line, trimmed, is exactly `t`.
pub open spec fn has_trimmed_line(lines: Seq<Seq<char>>, t: Seq<char>) -> bool {
    exists|i: int| 0 <= i < lines.len() && trim(#[trigger] lines[i]) == t
}

/// Whether some line, trimmed, is exactly `t` (how the setup looks for
/// `dtoverlay=dwc2` in `config.txt` and `dwc2` in `/etc/modules`).
pub fn contains_trimmed_line(lines: &Vec<String>, t: &str) -> (r: bool)
    ensures
        r == has_trimmed_line(texts(lines@), t@),
{
    let ghost s = texts(lines@);
    let mut i: usize = 0;
    while i < lines.len()
        invariant
            i <= lines@.len(),
            s == texts(lines@),
            forall|j: int| 0 <= j < i ==> trim(#[trigger] s[j]) != t@,
        decreases lines@.len() - i,
    {
        if trims_to(lines[i].as_str(), t) {
            assert(trim(s[i as int]) == t@);
            return true;
        }
        i = i + 1;
    }
    false
}

/// `s` without the NUL characters at its end (`trim_end_matches('\0')`).
pub open spec fn strip_trailing_nul(s: Seq<char>) -> Seq<char>
    decreases s.len(),
{
    if s.len() > 0 && s.last() == '\0' {
        strip_trailing_nul(s.drop_last())
    } else {
        s
    }
}

/// `s` with every NUL character turned into a space (`replace('\0', " ")`).
pub open spec fn nul_to_space(s: Seq<char>) -> Seq<char> {
    s.map_values(|c: char| if c == '\0' { ' ' } else { c })
}

/// The board named in a device-tree model, if it is one the setup knows.
pub open spec fn board_from_model(m: Seq<char>) -> Option<BoardModel> {
    if has_substring(m, "Raspberry Pi Zero W"@) {
        Some(BoardModel::RaspberryPiZero)
    } else if has_substring(m, "Raspberry Pi Zero 2 W"@) {
        Some(BoardModel::RaspberryPiZero2W)
    } else if has_substring(m, "OrangePi Zero2W"@) || has_substring(m, "OrangePi Zero 2W"@) {
        Some(BoardModel::OrangePiZero2W)
    } else {
        None
    }
}

/// The board named in a device-tree `compatible` list, if it is one the
/// setup knows.
pub open spec fn board_from_compatible(c: Seq<char>) -> Option<BoardModel> {
    if has_substring(c, "raspberrypi"@) {
        if has_substring(c, "zero-w"@) {
            Some(BoardModel::RaspberryPiZero)
        } else if has_substring(c, "zero-2-w"@) {
            Some(BoardModel::RaspberryPiZero2W)
        } else {
            None
        }
    } else if has_substring(c, "allwinner"@) && has_substring(c, "h616"@) {
        Some(BoardModel::OrangePiZero2W)
    } else {
        None
    }
}

/// The board, from `/proc/cpuinfo` and, where they could be read, the
/// device-tree model and compatible list: the Allwinner H616 in the CPU
/// information means the Orange Pi; otherwise the model decides, then the
/// compatible list.
pub open spec fn detected_board(cpuinfo: Seq<char>, model: Option<Seq<char>>, compatible: Option<Seq<char>>) -> Option<BoardModel> {
    if has_substring(cpuinfo, "Allwinner sun50iw9"@) || has_substring(cpuinfo, "sun50i-h616"@) {
        Some(BoardModel::OrangePiZero2W)
    } else {
        let from_model = match model {
            Some(m) => board_from_model(strip_trailing_nul(m)),
            None => None,
        };
        match from_model {
            Some(b) => Some(b),
            None => match compatible {
                Some(c) => board_from_compatible(nul_to_space(c)),
                None => None,
            },
        }
    }
}

fn strip_trailing_nul_text(s: &str) -> (r: String)
    ensures
        r@ == strip_trailing_nul(s@),
{
    let v = text::chars_of(s);
    let mut n = v.len();
    assert(v@.take(n as int) =~= v@);
    while n > 0 && v[n - 1] == '\0'
        invariant
            n <= v@.len(),
            v@ == s@,
            strip_trailing_nul(v@) == strip_trailing_nul(v@.take(n as int)),
        decreases n,
    {
        assert(v@.take(n as int).drop_last() =~= v@.take(n - 1));
        n = n - 1;
    }
    assert(v@.subrange(0, n as int) =~= v@.take(n as int));
    assert(strip_trailing_nul(v@.take(n as int)) == v@.take(n as int));
    text::string_from_range(v.as_slice(), 0, n)
}

fn nul_to_space_text(s: &str) -> (r: String)
    ensures
        r@ == nul_to_space(s@),
{
    let v = text::chars_of(s);
    let mut r = String::new();
    let mut i: usize = 0;
    while i < v.len()
        invariant
            i <= v@.len(),
            v@ == s@,
            r@ == nul_to_space(v@.take(i as int)),
        decreases v@.len() - i,
    {
        let c = if v[i] == '\0' { ' ' } else { v[i] };
        text::push_char(&mut r, c);
        assert(v@.take(i + 1) =~= v@.take(i as int).push(v@[i as int]));
        assert(r@ =~= nul_to_space(v@.take(i + 1)));
        i = i + 1;
    }
    assert(v@.take(i as int) =~= v@);
    r
}

fn model_board(m: &str) -> (r: Option<BoardModel>)
    ensures
        r == board_from_model(m@),
{
    if text::contains_str(m, "Raspberry Pi Zero W") {
        Some(BoardModel::RaspberryPiZero)
    } else if text::contains_str(m, "Raspberry Pi Zero 2 W") {
        Some(BoardModel::RaspberryPiZero2W)
    } else if text::contains_str(m, "OrangePi Zero2W") || text::contains_str(m, "OrangePi Zero 2W") {
        Some(BoardModel::OrangePiZero2W)
    } else {
        None
    }
}

fn compatible_board(c: &str) -> (r: Option<BoardModel>)
    ensures
        r == board_from_compatible(c@),
{
    if text::contains_str(c, "raspberrypi") {
        if text::contains_str(c, "zero-w") {
            Some(BoardModel::RaspberryPiZero)
        } else if text::contains_str(c, "zero-2-w") {
            Some(BoardModel::RaspberryPiZero2W)
        } else {
            None
        }
    } else if text::contains_str(c, "allwinner") && text::contains_str(c, "h616") {
        Some(BoardModel::OrangePiZero2W)
    } else {
        None
    }
}

/// The characters of an optional text.
pub open spec fn opt_view(o: Option<&str>) -> Option<Seq<char>> {
    match o {
        Some(s) => Some(s@),
        None => None,
    }
}

/// Recognises the board from what the kernel reports; see `detected_board`.
/// An unrecognised board is `BoardDetectionFailed`.
pub fn detect_board_model(cpuinfo: &str, model: Option<&str>, compatible: Option<&str>) -> (r: Result<BoardModel, SetupError>)
    ensures
        match detected_board(cpuinfo@, opt_view(model), opt_view(compatible)) {
            Some(b) => r == Ok::<BoardModel, SetupError>(b),
            None => r matches Err(SetupError::BoardDetectionFailed(m)) && m@ == "Could not identify board model"@,
        },
{
    if text::contains_str(cpuinfo, "Allwinner sun50iw9") || text::contains_str(cpuinfo, "sun50i-h616") {
        return Ok(BoardModel::OrangePiZero2W);
    }
    let from_model = match model {
        Some(m) => {
            let t = strip_trailing_nul_text(m);
            model_board(t.as_str())
        },
        None => None,
    };
    match from_model {
        Some(b) => return Ok(b),
        None => {},
    }
    let from_compatible = match compatible {
        Some(c) => {
            let t = nul_to_space_text(c);
            compatible_board(t.as_str())
        },
        None => None,
    };
    match from_compatible {
        Some(b) => Ok(b),
        None => Err(SetupError::BoardDetectionFailed(text::owned("Could not identify board model"))),
    }
}

/// The part of `s` before its first `c` (all of `s` without one).
pub open spec fn until_char(s: Seq<char>, c: char) -> Seq<char>
    decreases s.len(),
{
    if s.len() == 0 {
        s
    } else if s[0] == c {
        Seq::empty()
    } else {
        seq![s[0]] + until_char(s.drop_first(), c)
    }
}

proof fn lemma_until_char(s: Seq<char>, c: char, k: int)
    requires
        0 <= k <= s.len(),
        k == s.len() || s[k] == c,
        forall|j: int| 0 <= j < k ==> s[j] != c,
    ensures
        until_char(s, c) == s.take(k),
    decreases s.len(),
{
    if s.len() > 0 {
        if k == 0 {
            assert(s.take(0) =~= Seq::<char>::empty());
        } else {
            let t = s.drop_first();
            assert forall|j: int| 0 <= j < k - 1 implies t[j] != c by {
                assert(t[j] == s[j + 1]);
            }
            if k < s.len() {
                assert(t[k - 1] == s[k]);
            }
            lemma_until_char(t, c, k - 1);
            assert(seq![s[0]] + t.take(k - 1) =~= s.take(k));
        }
    }
}

/// The overlays of an `overlays=` line: what follows the first `=`, up to a
/// further `=` (`line.split('=').nth(1)`).
pub open spec fn overlay_field(line: Seq<char>) -> Seq<char> {
    until_char(line.skip(9), '=')
}

/// An `overlays=` line that lists `ov`: unchanged when its overlays already
/// mention it, else its overlays, trimmed, followed by a space and `ov`.
pub open spec fn with_overlay(line: Seq<char>, ov: Seq<char>) -> Seq<char> {
    let field = overlay_field(line);
    if has_substring(field, ov) {
        line
    } else {
        trim("overlays="@ + trim(field) + seq![' '] + ov)
    }
}

/// The overlay the boot environment file must list: `usb-otg` on the
/// Orange Pi, else the board's device-tree overlay where it has one.
pub open spec fn env_overlay(b: BoardModel) -> Option<Seq<char>> {
    if b is OrangePiZero2W {
        Some("usb-otg"@)
    } else {
        otg_overlay_text(b)
    }
}

/// The lines after setting the first line that begins with `prefix` to
/// `line`, or appending `line` when there is none.
pub open spec fn set_prefixed(lines: Seq<Seq<char>>, prefix: Seq<char>, line: Seq<char>) -> Seq<Seq<char>> {
    match first_prefixed(lines, prefix) {
        Some(i) => lines.update(i as int, line),
        None => lines.push(line),
    }
}

/// The lines with `ov` listed on the first `overlays=` line, or on a new one.
pub open spec fn overlay_step(lines: Seq<Seq<char>>, ov: Seq<char>) -> Seq<Seq<char>> {
    match first_prefixed(lines, "overlays="@) {
        Some(i) => lines.update(i as int, with_overlay(lines[i as int], ov)),
        None => lines.push("overlays="@ + ov),
    }
}

/// The boot environment (`orangepiEnv.txt` or `armbianEnv.txt`) with USB OTG
/// enabled, or none when the board needs no overlay (and the file is left
/// alone): the overlay is added to the first `overlays=` line or a new one,
/// and on the Orange Pi the first `param_dwc2_dr_mode=` line is set to `otg`
/// or added.
pub open spec fn env_with_otg(lines: Seq<Seq<char>>, b: BoardModel) -> Option<Seq<Seq<char>>> {
    match env_overlay(b) {
        None => None,
        Some(ov) => {
            let with_ov = overlay_step(lines, ov);
            if b is OrangePiZero2W {
                Some(set_prefixed(with_ov, "param_dwc2_dr_mode="@, "param_dwc2_dr_mode=otg"@))
            } else {
                Some(with_ov)
            }
        },
    }
}

/// The overlay line with `ov` listed; see `with_overlay`.
fn add_overlay(line: &str, ov: &str) -> (r: String)
    requires
        starts_with(line@, "overlays="@),
    ensures
        r@ == with_overlay(line@, ov@),
{
    let v = text::chars_of(line);
    proof {
        reveal_strlit("overlays=");
    }
    let mut k: usize = 9;
    while k < v.len() && v[k] != '='
        invariant
            9 <= k <= v@.len(),
            v@ == line@,
            forall|j: int| 9 <= j < k ==> v@[j] != '=',
        decreases v@.len() - k,
    {
        k = k + 1;
    }
    proof {
        let t = v@.skip(9);
        assert forall|j: int| 0 <= j < k - 9 implies t[j] != '=' by {
            assert(t[j] == v@[j + 9]);
        }
        if k < v@.len() {
            assert(t[k - 9] == v@[k as int]);
        }
        lemma_until_char(t, '=', k - 9);
        assert(t.take(k - 9) =~= v@.subrange(9, k as int));
    }
    let field = text::string_from_range(v.as_slice(), 9, k);
    if text::contains_str(field.as_str(), ov) {
        return text::owned(line);
    }
    let mut s = text::owned("overlays=");
    let f = trimmed(field.as_str());
    text::push_str(&mut s, f.as_str());
    text::push_char(&mut s, ' ');
    text::push_str(&mut s, ov);
    assert(field@ == overlay_field(line@));
    assert(s@ =~= "overlays="@ + trim(overlay_field(line@)) + seq![' '] + ov@);
    trimmed(s.as_str())
}

/// Sets the first line beginning with `prefix` to `line`, or appends it.
fn set_prefixed_line(lines: &mut Vec<String>, prefix: &str, line: String)
    ensures
        texts(final(lines)@) == set_prefixed(texts(old(lines)@), prefix@, line@),
{
    match find_prefixed(lines, prefix) {
        Some(i) => {
            lines.set(i, line);
            assert(texts(lines@) =~= texts(old(lines)@).update(i as int, line@));
        },
        None => {
            lines.push(line);
            assert(texts(lines@) =~= texts(old(lines)@).push(line@));
        },
    }
}

/// The boot environment lines with USB OTG enabled; see `env_with_otg`.
pub fn armbian_env_with_otg(lines: &Vec<String>, board: &BoardModel) -> (r: Option<Vec<String>>)
    ensures
        match env_with_otg(texts(lines@), *board) {
            Some(t) => r matches Some(v) && texts(v@) == t,
            None => r is None,
        },
{
    let is_orange = match board {
        BoardModel::OrangePiZero2W => true,
        _ => false,
    };
    let ov: &str = if is_orange {
        "usb-otg"
    } else {
        match board.otg_device_tree_overlay() {
            Some(o) => o,
            None => return None,
        }
    };
    let mut out = copy_lines(lines);
    match find_prefixed(&out, "overlays=") {
        Some(i) => {
            let updated = add_overlay(out[i].as_str(), ov);
            out.set(i, updated);
            assert(texts(out@) =~= texts(lines@).update(i as int, with_overlay(texts(lines@)[i as int], ov@)));
        },
        None => {
            let mut l = text::owned("overlays=");
            text::push_str(&mut l, ov);
            out.push(l);
            assert(texts(out@) =~= texts(lines@).push("overlays="@ + ov@));
        },
    }
    if is_orange {
        set_prefixed_line(&mut out, "param_dwc2_dr_mode=", text::owned("param_dwc2_dr_mode=otg"));
    }
    Some(out)
}

/// The lines, each ended by a newline: what writing them one by one puts in a file.
pub open spec fn newline_terminated(lines: Seq<Seq<char>>) -> Seq<char>
    decreases lines.len(),
{
    if lines.len() == 0 {
        Seq::empty()
    } else {
        newline_terminated(lines.drop_last()) + lines.last() + seq!['\n']
    }
}

/// The text of a file holding these lines, each ended by a newline.
pub fn write_lines_text(lines: &Vec<String>) -> (r: String)
    ensures
        r@ == newline_terminated(texts(lines@)),
{
    let mut r = String::new();
    let mut i: usize = 0;
    while i < lines.len()
        invariant
            i <= lines@.len(),
            r@ == newline_terminated(texts(lines@.take(i as int))),
        decreases lines@.len() - i,
    {
        text::push_str(&mut r, lines[i].as_str());
        text::push_char(&mut r, '\n');
        proof {
            let t = lines@.take(i + 1);
            assert(t.drop_last() =~= lines@.take(i as int));
            assert(texts(t).drop_last() =~= texts(lines@.take(i as int)));
        }
        i = i + 1;
    }
    assert(lines@.take(i as int) =~= lines@);
    r
}

/// The pieces of `s` between the characters `c` (`str::split(c)`): one more
/// piece than there are `c`, empty pieces included.
pub open spec fn split_on(s: Seq<char>, c: char) -> Seq<Seq<char>>
    decreases s.len(),
{
    if s.len() == 0 {
        seq![Seq::<char>::empty()]
    } else {
        let t = split_on(s.drop_last(), c);
        if s.last() == c {
            t.push(Seq::empty())
        } else {
            t.update(t.len() - 1, t.last().push(s.last()))
        }
    }
}

proof fn lemma_split_nonempty(s: Seq<char>, c: char)
    ensures
        split_on(s, c).len() >= 1,
    decreases s.len(),
{
    if s.len() > 0 {
        lemma_split_nonempty(s.drop_last(), c);
    }
}

/// The pieces joined, with `sep` between each two (`join`).
pub open spec fn join_with(s: Seq<Seq<char>>, sep: Seq<char>) -> Seq<char>
    decreases s.len(),
{
    if s.len() == 0 {
        Seq::empty()
    } else if s.len() == 1 {
        s[0]
    } else {
        join_with(s.drop_last(), sep) + sep + s.last()
    }
}

/// The pieces of `s` between the characters `c`, in order.
pub fn split_text(s: &str, c: char) -> (r: Vec<String>)
    ensures
        texts(r@) == split_on(s@, c),
{
    let v = text::chars_of(s);
    let mut pieces: Vec<String> = Vec::new();
    let mut cur = String::new();
    let mut i: usize = 0;
    while i < v.len()
        invariant
            i <= v@.len(),
            v@ == s@,
            texts(pieces@).push(cur@) == split_on(v@.take(i as int), c),
        decreases v@.len() - i,
    {
        let ghost before = texts(pieces@);
        let ghost cur_before = cur@;
        proof {
            assert(v@.take(i + 1).drop_last() =~= v@.take(i as int));
        }
        if v[i] == c {
            pieces.push(cur);
            cur = String::new();
            assert(texts(pieces@) =~= before.push(cur_before));
            assert(texts(pieces@).push(cur@) =~= before.push(cur_before).push(Seq::empty()));
        } else {
            text::push_char(&mut cur, v[i]);
            assert(texts(pieces@).push(cur@) =~= before.push(cur_before).update(before.len() as int, cur_before.push(v@[i as int])));
        }
        i = i + 1;
    }
    assert(v@.take(i as int) =~= v@);
    let ghost before = texts(pieces@);
    pieces.push(cur);
    assert(texts(pieces@) =~= before.push(cur@));
    pieces
}

/// Joins pieces with `sep` between each two.
pub fn join_texts(pieces: &Vec<String>, sep: &str) -> (r: String)
    ensures
        r@ == join_with(texts(pieces@), sep@),
{
    let mut r = String::new();
    let mut i: usize = 0;
    while i < pieces.len()
        invariant
            i <= pieces@.len(),
            r@ == join_with(texts(pieces@.take(i as int)), sep@),
        decreases pieces@.len() - i,
    {
        if i > 0 {
            text::push_str(&mut r, sep);
        }
        text::push_str(&mut r, pieces[i].as_str());
        proof {
            let t = texts(pieces@.take(i + 1));
            assert(t.drop_last() =~= texts(pieces@.take(i as int)));
            if i == 0 {
                assert(texts(pieces@.take(0)) =~= Seq::<Seq<char>>::empty());
            }
        }
        i = i + 1;
    }
    assert(pieces@.take(i as int) =~= pieces@);
    r
}

/// Whether a piece of an overlay list names the USB OTG overlay.
pub open spec fn names_otg(t: Seq<char>) -> bool {
    has_substring(t, "usb-otg"@)
}

/// An `overlays=` line without the USB OTG overlay: the other space-separated
/// pieces, or an empty line when none is left.
pub open spec fn without_otg_overlay(line: Seq<char>) -> Seq<char> {
    let kept = split_on(line.skip(9), ' ').filter(|t: Seq<char>| !names_otg(t));
    if kept.len() == 0 {
        Seq::empty()
    } else {
        "overlays="@ + join_with(kept, seq![' '])
    }
}

/// The first `overlays=` line that mentions `usb-otg`.
pub open spec fn first_otg_line(lines: Seq<Seq<char>>) -> Option<nat>
    decreases lines.len(),
{
    if lines.len() == 0 {
        None
    } else if starts_with(lines[0], "overlays="@) && names_otg(lines[0]) {
        Some(0)
    } else {
        match first_otg_line(lines.drop_first()) {
            Some(i) => Some(i + 1),
            None => None,
        }
    }
}

proof fn lemma_first_otg_line_is(lines: Seq<Seq<char>>, i: Option<nat>)
    requires
        match i {
            Some(i) => i < lines.len() && starts_with(lines[i as int], "overlays="@) && names_otg(lines[i as int])
                && forall|j: int| 0 <= j < i ==> !(starts_with(#[trigger] lines[j], "overlays="@) && names_otg(lines[j])),
            None => forall|j: int| 0 <= j < lines.len() ==> !(starts_with(#[trigger] lines[j], "overlays="@) && names_otg(lines[j])),
        },
    ensures
        first_otg_line(lines) == i,
    decreases lines.len(),
{
    if lines.len() > 0 && !(starts_with(lines[0], "overlays="@) && names_otg(lines[0])) {
        let rest = lines.drop_first();
        let k: Option<nat> = match i {
            Some(i) => Some((i - 1) as nat),
            None => None,
        };
        match i {
            Some(i) => {
                assert(i > 0);
                assert forall|j: int| 0 <= j < i - 1 implies !(starts_with(#[trigger] rest[j], "overlays="@) && names_otg(rest[j])) by {
                    assert(rest[j] == lines[j + 1]);
                }
                assert(rest[i - 1] == lines[i as int]);
            },
            None => {
                assert forall|j: int| 0 <= j < rest.len() implies !(starts_with(#[trigger] rest[j], "overlays="@) && names_otg(rest[j])) by {
                    assert(rest[j] == lines[j + 1]);
                }
            },
        }
        lemma_first_otg_line_is(rest, k);
    } else if lines.len() > 0 {
        match i {
            Some(i) => {
                if i > 0 {
                    assert(!(starts_with(lines[0], "overlays="@) && names_otg(lines[0])));
                }
            },
            None => {
                assert(!(starts_with(lines[0], "overlays="@) && names_otg(lines[0])));
            },
        }
    }
}

/// The boot environment without USB OTG, or none when nothing had to be
/// removed (and the file is left alone): the first `overlays=` line that
/// names `usb-otg` loses that overlay, every `param_dwc2_dr_mode=` line is
/// dropped, and then the empty lines.
pub open spec fn env_without_otg(lines: Seq<Seq<char>>) -> Option<Seq<Seq<char>>> {
    let step1 = match first_otg_line(lines) {
        Some(i) => lines.update(i as int, without_otg_overlay(lines[i as int])),
        None => lines,
    };
    let step2 = step1.filter(|l: Seq<char>| !starts_with(l, "param_dwc2_dr_mode="@));
    if first_otg_line(lines) is Some || step2.len() != lines.len() {
        Some(step2.filter(|l: Seq<char>| l.len() > 0))
    } else {
        None
    }
}

/// The overlay line without the USB OTG overlay; see `without_otg_overlay`.
fn drop_otg_overlay(line: &str) -> (r: String)
    requires
        starts_with(line@, "overlays="@),
    ensures
        r@ == without_otg_overlay(line@),
{
    let v = text::chars_of(line);
    proof {
        reveal_strlit("overlays=");
    }
    let rest = text::string_from_range(v.as_slice(), 9, v.len());
    assert(rest@ =~= line@.skip(9));
    let pieces = split_text(rest.as_str(), ' ');
    let mut kept: Vec<String> = Vec::new();
    let mut i: usize = 0;
    while i < pieces.len()
        invariant
            i <= pieces@.len(),
            texts(kept@) == texts(pieces@.take(i as int)).filter(|t: Seq<char>| !names_otg(t)),
        decreases pieces@.len() - i,
    {
        let ghost before = texts(kept@);
        let p = pieces[i].clone();
        proof {
            let t = texts(pieces@.take(i + 1));
            assert(t.drop_last() =~= texts(pieces@.take(i as int)));
            reveal_with_fuel(Seq::filter, 1);
        }
        if !text::contains_str(p.as_str(), "usb-otg") {
            kept.push(p);
            assert(texts(kept@) =~= before.push(p@));
        }
        i = i + 1;
    }
    assert(pieces@.take(i as int) =~= pieces@);
    assert(texts(kept@) == split_on(line@.skip(9), ' ').filter(|t: Seq<char>| !names_otg(t)));
    if kept.len() == 0 {
        assert(texts(kept@).len() == 0);
        String::new()
    } else {
        let mut r = text::owned("overlays=");
        proof {
            reveal_strlit(" ");
            assert(" "@ =~= seq![' ']);
        }
        let j = join_texts(&kept, " ");
        text::push_str(&mut r, j.as_str());
        r
    }
}

/// Keeps the lines for which `keep` holds: those not beginning with
/// `prefix` when `by_prefix`, else those that are not empty.
fn retain_lines(lines: &Vec<String>, prefix: &str) -> (r: Vec<String>)
    ensures
        texts(r@) == texts(lines@).filter(|l: Seq<char>| !starts_with(l, prefix@)),
{
    let mut r: Vec<String> = Vec::new();
    let mut i: usize = 0;
    while i < lines.len()
        invariant
            i <= lines@.len(),
            texts(r@) == texts(lines@.take(i as int)).filter(|l: Seq<char>| !starts_with(l, prefix@)),
        decreases lines@.len() - i,
    {
        let ghost before = texts(r@);
        proof {
            let t = texts(lines@.take(i + 1));
            assert(t.drop_last() =~= texts(lines@.take(i as int)));
            reveal_with_fuel(Seq::filter, 1);
        }
        if !text_starts_with(lines[i].as_str(), prefix) {
            r.push(lines[i].clone());
            assert(texts(r@) =~= before.push(lines@[i as int]@));
        }
        i = i + 1;
    }
    assert(lines@.take(i as int) =~= lines@);
    r
}

fn retain_non_empty(lines: &Vec<String>) -> (r: Vec<String>)
    ensures
        texts(r@) == texts(lines@).filter(|l: Seq<char>| l.len() > 0),
{
    let mut r: Vec<String> = Vec::new();
    let mut i: usize = 0;
    while i < lines.len()
        invariant
            i <= lines@.len(),
            texts(r@) == texts(lines@.take(i as int)).filter(|l: Seq<char>| l.len() > 0),
        decreases lines@.len() - i,
    {
        let ghost before = texts(r@);
        proof {
            let t = texts(lines@.take(i + 1));
            assert(t.drop_last() =~= texts(lines@.take(i as int)));
            reveal_with_fuel(Seq::filter, 1);
        }
        if !lines[i].as_str().is_empty() {
            r.push(lines[i].clone());
            assert(texts(r@) =~= before.push(lines@[i as int]@));
        }
        i = i + 1;
    }
    assert(lines@.take(i as int) =~= lines@);
    r
}

/// The boot environment lines without USB OTG; see `env_without_otg`.
pub fn armbian_env_without_otg(lines: &Vec<String>) -> (r: Option<Vec<String>>)
    ensures
        match env_without_otg(texts(lines@)) {
            Some(t) => r matches Some(v) && texts(v@) == t,
            None => r is None,
        },
{
    let ghost t = texts(lines@);
    let mut step1 = copy_lines(lines);
    let mut i: usize = 0;
    let mut found: Option<usize> = None;
    while i < step1.len()
        invariant
            i <= step1@.len(),
            texts(step1@) == t,
            match found {
                Some(k) => k < i && starts_with(t[k as int], "overlays="@) && names_otg(t[k as int])
                    && forall|j: int| 0 <= j < k ==> !(starts_with(#[trigger] t[j], "overlays="@) && names_otg(t[j])),
                None => forall|j: int| 0 <= j < i ==> !(starts_with(#[trigger] t[j], "overlays="@) && names_otg(t[j])),
            },
        decreases step1@.len() - i,
    {
        if found.is_none() && text_starts_with(step1[i].as_str(), "overlays=")
            && text::contains_str(step1[i].as_str(), "usb-otg") {
            found = Some(i);
        }
        i = i + 1;
    }
    let modified_overlay = match found {
        Some(k) => {
            proof {
                lemma_first_otg_line_is(t, Some(k as nat));
            }
            let updated = drop_otg_overlay(step1[k].as_str());
            step1.set(k, updated);
            assert(texts(step1@) =~= t.update(k as int, without_otg_overlay(t[k as int])));
            true
        },
        None => {
            proof {
                lemma_first_otg_line_is(t, None);
            }
            false
        },
    };
    let step2 = retain_lines(&step1, "param_dwc2_dr_mode=");
    if modified_overlay || step2.len() != lines.len() {
        Some(retain_non_empty(&step2))
    } else {
        None
    }
}

/// `config.txt` without the USB OTG lines: each `dtoverlay=dwc2` line
/// (trimmed) with one blank line right after it, and the comment that
/// announces it.
pub open spec fn config_without_dwc2(lines: Seq<Seq<char>>, skip_blank: bool) -> Seq<Seq<char>>
    decreases lines.len(),
{
    if lines.len() == 0 {
        Seq::empty()
    } else {
        let l = lines[0];
        let rest = lines.drop_first();
        if skip_blank && trim(l).len() == 0 {
            config_without_dwc2(rest, false)
        } else if trim(l) == "dtoverlay=dwc2"@ {
            config_without_dwc2(rest, true)
        } else if has_substring(l, "Enable USB OTG mode for gadget"@) {
            config_without_dwc2(rest, false)
        } else {
            seq![l] + config_without_dwc2(rest, false)
        }
    }
}

/// The new text of `config.txt` with the USB OTG lines removed; see
/// `config_without_dwc2`. The kept lines are joined by newlines.
pub fn config_txt_without_dwc2(lines: &Vec<String>) -> (r: String)
    ensures
        r@ == join_with(config_without_dwc2(texts(lines@), false), seq!['\n']),
{
    let ghost t = texts(lines@);
    let mut out: Vec<String> = Vec::new();
    let mut skip = false;
    let mut i: usize = 0;
    assert(t.skip(0) =~= t);
    while i < lines.len()
        invariant
            i <= lines@.len(),
            t == texts(lines@),
            texts(out@) + config_without_dwc2(t.skip(i as int), skip) == config_without_dwc2(t, false),
        decreases lines@.len() - i,
    {
        let ghost before = texts(out@);
        let ghost was_skip = skip;
        proof {
            assert(t.skip(i as int).drop_first() =~= t.skip(i + 1));
            assert(t.skip(i as int)[0] == t[i as int]);
        }
        let line = lines[i].as_str();
        let tr = trimmed(line);
        if skip && tr.as_str().is_empty() {
            skip = false;
        } else if tr.as_str().view_eq("dtoverlay=dwc2") {
            skip = true;
        } else if text::contains_str(line, "Enable USB OTG mode for gadget") {
            skip = false;
        } else {
            skip = false;
            out.push(lines[i].clone());
            proof {
                assert(texts(out@) =~= before.push(t[i as int]));
                assert(before + (seq![t[i as int]] + config_without_dwc2(t.skip(i + 1), false))
                    =~= before.push(t[i as int]) + config_without_dwc2(t.skip(i + 1), false));
            }
        }
        i = i + 1;
    }
    proof {
        assert(t.skip(i as int) =~= Seq::<Seq<char>>::empty());
        assert(texts(out@) + Seq::<Seq<char>>::empty() =~= texts(out@));
        reveal_strlit("\n");
        assert("\n"@ =~= seq!['\n']);
    }
    join_texts(&out, "\n")
}

/// The new text of `/etc/modules` without the `dwc2` line: the other lines
/// joined by newlines.
pub fn modules_without_dwc2(lines: &Vec<String>) -> (r: String)
    ensures
        r@ == join_with(texts(lines@).filter(|l: Seq<char>| trim(l) != "dwc2"@), seq!['\n']),
{
    let mut kept: Vec<String> = Vec::new();
    let mut i: usize = 0;
    while i < lines.len()
        invariant
            i <= lines@.len(),
            texts(kept@) == texts(lines@.take(i as int)).filter(|l: Seq<char>| trim(l) != "dwc2"@),
        decreases lines@.len() - i,
    {
        let ghost before = texts(kept@);
        proof {
            let t = texts(lines@.take(i + 1));
            assert(t.drop_last() =~= texts(lines@.take(i as int)));
            reveal_with_fuel(Seq::filter, 1);
        }
        if !trims_to(lines[i].as_str(), "dwc2") {
            kept.push(lines[i].clone());
            assert(texts(kept@) =~= before.push(lines@[i as int]@));
        }
        i = i + 1;
    }
    assert(lines@.take(i as int) =~= lines@);
    proof {
        reveal_strlit("\n");
        assert("\n"@ =~= seq!['\n']);
    }
    join_texts(&kept, "\n")
}

/// After the cleanup, `config.txt` no longer enables the gadget: no line of
/// it is `dtoverlay=dwc2` (trimmed), so the check of the setup finds it
/// unconfigured.
pub proof fn lemma_config_cleanup_removes_overlay(lines: Seq<Seq<char>>, skip_blank: bool)
    ensures
        !has_trimmed_line(config_without_dwc2(lines, skip_blank), "dtoverlay=dwc2"@),
    decreases lines.len(),
{
    if lines.len() > 0 {
        let l = lines[0];
        let rest = lines.drop_first();
        lemma_config_cleanup_removes_overlay(rest, false);
        lemma_config_cleanup_removes_overlay(rest, true);
        let out = config_without_dwc2(lines, skip_blank);
        if !(skip_blank && trim(l).len() == 0) && trim(l) != "dtoverlay=dwc2"@
            && !has_substring(l, "Enable USB OTG mode for gadget"@) {
            let tail = config_without_dwc2(rest, false);
            assert(out == seq![l] + tail);
            assert forall|i: int| 0 <= i < out.len() implies trim(#[trigger] out[i]) != "dtoverlay=dwc2"@ by {
                if i > 0 {
                    assert(out[i] == tail[i - 1]);
                }
            }
        }
    }
}

/// After the cleanup, `/etc/modules` lists no `dwc2` line.
pub proof fn lemma_modules_cleanup_removes_dwc2(lines: Seq<Seq<char>>)
    ensures
        !has_trimmed_line(lines.filter(|l: Seq<char>| trim(l) != "dwc2"@), "dwc2"@),
{
    let out = lines.filter(|l: Seq<char>| trim(l) != "dwc2"@);
    assert forall|i: int| 0 <= i < out.len() implies trim(#[trigger] out[i]) != "dwc2"@ by {
        lines.filter_lemma(|l: Seq<char>| trim(l) != "dwc2"@);
    }
}

/// What `first_prefixed` finds: the index of a line that begins with `p`
/// with none before it, or nothing when no line does.
proof fn lemma_first_prefixed(lines: Seq<Seq<char>>, p: Seq<char>)
    ensures
        match first_prefixed(lines, p) {
            Some(i) => i < lines.len() && starts_with(lines[i as int], p)
                && forall|j: int| 0 <= j < i ==> !starts_with(#[trigger] lines[j], p),
            None => forall|j: int| 0 <= j < lines.len() ==> !starts_with(#[trigger] lines[j], p),
        },
    decreases lines.len(),
{
    if lines.len() > 0 && !starts_with(lines[0], p) {
        let rest = lines.drop_first();
        lemma_first_prefixed(rest, p);
        assert forall|j: int| 1 <= j < lines.len() implies #[trigger] lines[j] == rest[j - 1] by {}
    }
}

proof fn lemma_trim_identity(s: Seq<char>)
    requires
        s.len() > 0,
        !text::is_white_space(s[0]),
        !text::is_white_space(s.last()),
    ensures
        trim(s) == s,
{
    assert(text::leading_ws(s) == 0);
    assert(s.skip(0) =~= s);
    assert(text::trailing_ws(s) == 0);
    assert(s.take(s.len() as int) =~= s);
}

proof fn lemma_ends_with_substring(x: Seq<char>, ov: Seq<char>)
    ensures
        has_substring(x + ov, ov),
{
    assert((x + ov).subrange(x.len() as int, (x.len() + ov.len()) as int) =~= ov);
    assert(text::occurs_at(x + ov, ov, x.len() as int));
}

/// An overlay line written by the setup lists the overlay, so a second
/// setup leaves it as it is.
proof fn lemma_with_overlay_lists(line: Seq<char>, ov: Seq<char>)
    requires
        starts_with(line, "overlays="@),
        ov == "usb-otg"@,
    ensures
        starts_with(with_overlay(line, ov), "overlays="@),
        has_substring(overlay_field(with_overlay(line, ov)), ov),
{
    reveal_strlit("overlays=");
    reveal_strlit("usb-otg");
    let field = overlay_field(line);
    if !has_substring(field, ov) {
        let body = "overlays="@ + trim(field) + seq![' '] + ov;
        assert(body[0] == 'o');
        assert(body.last() == 'g');
        lemma_trim_identity(body);
        let t = body.skip(9);
        assert(t =~= trim(field) + seq![' '] + ov);
        // the field has no `=`, nor has its trimmed part, the space or the overlay
        lemma_until_char_free(line.skip(9), '=');
        lemma_trim_within(field);
        let (a, z) = choose|a: int, z: int| 0 <= a <= z <= field.len() && trim(field) == field.subrange(a, z);
        assert forall|j: int| 0 <= j < t.len() implies t[j] != '=' by {
            if j < trim(field).len() {
                assert(trim(field)[j] == field[a + j]);
            }
        }
        lemma_until_char(t, '=', t.len() as int);
        assert(t.take(t.len() as int) =~= t);
        assert(body.take(9) =~= "overlays="@);
        assert(overlay_field(body) == t);
        assert(t =~= (trim(field) + seq![' ']) + ov);
        lemma_ends_with_substring(trim(field) + seq![' '], ov);
    }
}

/// The part of `s` before its first `c` holds no `c`.
proof fn lemma_until_char_free(s: Seq<char>, c: char)
    ensures
        forall|j: int| 0 <= j < until_char(s, c).len() ==> until_char(s, c)[j] != c,
    decreases s.len(),
{
    if s.len() > 0 && s[0] != c {
        lemma_until_char_free(s.drop_first(), c);
        let r = until_char(s.drop_first(), c);
        assert forall|j: int| 0 <= j < until_char(s, c).len() implies until_char(s, c)[j] != c by {
            if j > 0 {
                assert(until_char(s, c)[j] == r[j - 1]);
            }
        }
    }
}

proof fn lemma_leading_bound(s: Seq<char>)
    ensures
        text::leading_ws(s) <= s.len(),
    decreases s.len(),
{
    if s.len() > 0 {
        lemma_leading_bound(s.drop_first());
    }
}

proof fn lemma_trailing_bound(s: Seq<char>)
    ensures
        text::trailing_ws(s) <= s.len(),
    decreases s.len(),
{
    if s.len() > 0 {
        lemma_trailing_bound(s.drop_last());
    }
}

/// The trimmed text is a run of consecutive characters of the text.
proof fn lemma_trim_within(s: Seq<char>)
    ensures
        exists|a: int, z: int| 0 <= a <= z <= s.len() && trim(s) == s.subrange(a, z),
{
    let a = text::leading_ws(s) as int;
    lemma_leading_bound(s);
    let t = s.skip(a);
    lemma_trailing_bound(t);
    let z = a + t.len() - text::trailing_ws(t);
    assert(trim(s) =~= s.subrange(a, z));
}

/// The overlay step leaves an `overlays=` line listing the overlay at the
/// index `k`, and no line before it begins with `overlays=`.
proof fn lemma_overlay_step(lines: Seq<Seq<char>>, ov: Seq<char>) -> (k: int)
    requires
        ov == "usb-otg"@,
    ensures
        0 <= k < overlay_step(lines, ov).len(),
        starts_with(overlay_step(lines, ov)[k], "overlays="@),
        has_substring(overlay_field(overlay_step(lines, ov)[k]), ov),
        first_prefixed(overlay_step(lines, ov), "overlays="@) == Some(k as nat),
{
    reveal_strlit("overlays=");
    reveal_strlit("usb-otg");
    let po = "overlays="@;
    lemma_first_prefixed(lines, po);
    let w0 = overlay_step(lines, ov);
    match first_prefixed(lines, po) {
        Some(i) => {
            lemma_with_overlay_lists(lines[i as int], ov);
            assert forall|j: int| 0 <= j < i implies !starts_with(#[trigger] w0[j], po) by {
                assert(w0[j] == lines[j]);
            }
            lemma_first_prefixed_is(w0, po, Some(i));
            i as int
        },
        None => {
            let l = "overlays="@ + ov;
            assert(l.take(9) =~= po);
            assert(l.skip(9) =~= ov);
            lemma_until_char(ov, '=', ov.len() as int);
            assert(ov.take(ov.len() as int) =~= ov);
            lemma_ends_with_substring(Seq::<char>::empty(), ov);
            assert(Seq::<char>::empty() + ov =~= ov);
            assert(w0[lines.len() as int] == l);
            assert forall|j: int| 0 <= j < lines.len() implies !starts_with(#[trigger] w0[j], po) by {
                assert(w0[j] == lines[j]);
            }
            lemma_first_prefixed_is(w0, po, Some(lines.len()));
            lines.len() as int
        },
    }
}

/// Setting a line that begins with `pp` leaves the first `overlays=` line
/// where it was, when that line does not begin with `pp` and the new line
/// not with `overlays=`.
proof fn lemma_set_keeps_overlay_line(w: Seq<Seq<char>>, k: int, pp: Seq<char>, v: Seq<char>)
    requires
        0 <= k < w.len(),
        first_prefixed(w, "overlays="@) == Some(k as nat),
        !starts_with(w[k], pp),
        !starts_with(v, "overlays="@),
    ensures
        set_prefixed(w, pp, v)[k] == w[k],
        first_prefixed(set_prefixed(w, pp, v), "overlays="@) == Some(k as nat),
{
    let po = "overlays="@;
    lemma_first_prefixed(w, po);
    lemma_first_prefixed(w, pp);
    let l1 = set_prefixed(w, pp, v);
    let jp: int = match first_prefixed(w, pp) {
        Some(j) => j as int,
        None => w.len() as int,
    };
    assert(jp != k);
    assert(l1[k] == w[k]);
    assert forall|j: int| 0 <= j < k implies !starts_with(#[trigger] l1[j], po) by {
        if j != jp {
            assert(l1[j] == w[j]);
        }
    }
    lemma_first_prefixed_is(l1, po, Some(k as nat));
}

/// Setting the same line twice is setting it once.
proof fn lemma_set_prefixed_twice(w: Seq<Seq<char>>, pp: Seq<char>, v: Seq<char>)
    requires
        starts_with(v, pp),
    ensures
        set_prefixed(set_prefixed(w, pp, v), pp, v) == set_prefixed(w, pp, v),
{
    lemma_first_prefixed(w, pp);
    let l1 = set_prefixed(w, pp, v);
    let jp: int = match first_prefixed(w, pp) {
        Some(j) => j as int,
        None => w.len() as int,
    };
    assert(l1[jp] == v);
    assert forall|j: int| 0 <= j < jp implies !starts_with(#[trigger] l1[j], pp) by {
        assert(l1[j] == w[j]);
    }
    lemma_first_prefixed_is(l1, pp, Some(jp as nat));
    assert(l1.update(jp, v) =~= l1);
}

/// Enabling USB OTG in the boot environment twice is enabling it once: the
/// lines the setup writes already hold the overlay and the mode, so running
/// the setup again changes nothing.
pub proof fn lemma_env_with_otg_idempotent(lines: Seq<Seq<char>>, b: BoardModel)
    requires
        env_with_otg(lines, b) is Some,
    ensures
        env_with_otg(env_with_otg(lines, b).unwrap(), b) == env_with_otg(lines, b),
{
    reveal_strlit("overlays=");
    reveal_strlit("param_dwc2_dr_mode=");
    reveal_strlit("param_dwc2_dr_mode=otg");
    assert(b is OrangePiZero2W);
    let ov = "usb-otg"@;
    let po = "overlays="@;
    let pp = "param_dwc2_dr_mode="@;
    let v = "param_dwc2_dr_mode=otg"@;
    let w0 = overlay_step(lines, ov);
    let k = lemma_overlay_step(lines, ov);
    assert(v.take(pp.len() as int) =~= pp);
    assert(!starts_with(v, po)) by {
        assert(v[0] != po[0]);
    }
    assert(!starts_with(w0[k], pp)) by {
        assert(w0[k][0] == po[0]);
    }
    lemma_set_keeps_overlay_line(w0, k, pp, v);
    let l1 = set_prefixed(w0, pp, v);
    assert(first_prefixed(l1, po) == Some(k as nat));
    lemma_first_prefixed(w0, pp);
    assert(l1.len() >= w0.len());
    assert(l1[k] == w0[k]);
    assert(has_substring(overlay_field(l1[k]), ov));
    assert(with_overlay(l1[k], ov) == l1[k]);
    assert(overlay_step(l1, ov) == l1.update(k, with_overlay(l1[k], ov)));
    assert(l1.update(k, l1[k]) =~= l1);
    lemma_set_prefixed_twice(w0, pp, v);
}

} // verus!
