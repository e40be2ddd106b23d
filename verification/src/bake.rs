//! The outputs of a headless bake: how many frames, what each frame file is
//! called, and the manifest the web player reads.
use crate::text::{
    chars_eq_str, copy_range, digits_value, parse_usize, parse_usize_spec, range_starts_with,
    starts_with, str_chars,
};
use crate::viewer::strings_view;
use vstd::prelude::*;

verus! {

/// The character of the decimal digit `d`.
pub open spec fn digit_char(d: int) -> char {
    if d == 0 {
        '0'
    } else if d == 1 {
        '1'
    } else if d == 2 {
        '2'
    } else if d == 3 {
        '3'
    } else if d == 4 {
        '4'
    } else if d == 5 {
        '5'
    } else if d == 6 {
        '6'
    } else if d == 7 {
        '7'
    } else if d == 8 {
        '8'
    } else {
        '9'
    }
}

/// `n` written in decimal, as `format!("{}", n)` writes it.
pub open spec fn decimal(n: nat) -> Seq<char>
    decreases n,
{
    if n < 10 {
        seq![digit_char(n as int)]
    } else {
        decimal(n / 10).push(digit_char((n % 10) as int))
    }
}

/// `n` in decimal, padded with zeros to at least `width` characters, as
/// `format!("{:0width$}", n)` writes it.
pub open spec fn zero_padded(n: nat, width: nat) -> Seq<char> {
    let d = decimal(n);
    if d.len() >= width {
        d
    } else {
        Seq::new((width - d.len()) as nat, |i: int| '0') + d
    }
}

/// The file a baked frame is written to: `frame_` and the frame's index in at
/// least four digits, then `.png`.
pub open spec fn frame_file_name_spec(i: nat) -> Seq<char> {
    "frame_"@ + zero_padded(i, 4) + ".png"@
}

/// The manifest the web player reads: one line of JSON with the frame count,
/// the image size and the Gaussian count.
pub open spec fn manifest_spec(frames: nat, width: nat, height: nat, gaussians: nat) -> Seq<char> {
    "{\"frames\":"@ + decimal(frames) + ",\"width\":"@ + decimal(width) + ",\"height\":"@
        + decimal(height) + ",\"gaussians\":"@ + decimal(gaussians) + "}\n"@
}

/// A bake renders at least one frame.
pub fn bake_frames(requested: u32) -> (r: u32)
    ensures
        r == (if requested == 0 {
            1
        } else {
            requested
        }),
{
    if requested == 0 {
        1
    } else {
        requested
    }
}

fn digit(d: u32) -> (c: char)
    requires
        d < 10,
    ensures
        c == digit_char(d as int),
{
    match d {
        0 => '0',
        1 => '1',
        2 => '2',
        3 => '3',
        4 => '4',
        5 => '5',
        6 => '6',
        7 => '7',
        8 => '8',
        _ => '9',
    }
}

/// Appends `n` in decimal.
fn push_decimal(out: &mut Vec<char>, n: u32)
    ensures
        final(out)@ == old(out)@ + decimal(n as nat),
    decreases n,
{
    if n >= 10 {
        push_decimal(out, n / 10);
    }
    let ghost before = out@;
    out.push(digit(n % 10));
    proof {
        if n >= 10 {
            assert(decimal(n as nat) == decimal((n / 10) as nat).push(digit_char((n % 10) as int)));
        }
    }
    assert(out@ =~= old(out)@ + decimal(n as nat));
}

/// Appends the characters of `s`.
fn push_str(out: &mut Vec<char>, s: &str)
    ensures
        final(out)@ == old(out)@ + s@,
{
    let c = str_chars(s);
    let mut i: usize = 0;
    let ghost start = out@;
    while i < c.len()
        invariant
            i <= c@.len(),
            c@ == s@,
            out@ == start + c@.take(i as int),
        decreases c@.len() - i,
    {
        out.push(c[i]);
        i = i + 1;
        assert(out@ =~= start + c@.take(i as int));
    }
    assert(c@.take(i as int) =~= s@);
}

proof fn lemma_decimal_nonempty(n: nat)
    ensures
        decimal(n).len() >= 1,
    decreases n,
{
    if n >= 10 {
        lemma_decimal_nonempty(n / 10);
    }
}

proof fn lemma_decimal_value(n: nat)
    ensures
        digits_value(decimal(n)) == n,
    decreases n,
{
    lemma_digit_char_value((n % 10) as int);
    if n >= 10 {
        lemma_decimal_value(n / 10);
        let d = decimal(n);
        assert(d.drop_last() =~= decimal(n / 10));
        assert(d.last() == digit_char((n % 10) as int));
        assert(digits_value(d) == digits_value(decimal(n / 10)) * 10 + n % 10);
        assert(n == (n / 10) * 10 + n % 10);
    } else {
        let d = decimal(n);
        assert(d.drop_last() =~= Seq::<char>::empty());
        assert(digits_value(Seq::<char>::empty()) == 0);
        assert(d.last() == digit_char(n as int));
        assert(n % 10 == n);
    }
}

proof fn lemma_digit_char_value(d: int)
    requires
        0 <= d < 10,
    ensures
        digit_char(d) as nat - '0' as nat == d,
{
}

proof fn lemma_leading_zeros_value(z: Seq<char>, t: Seq<char>)
    requires
        forall|k: int| 0 <= k < z.len() ==> z[k] == '0',
    ensures
        digits_value(z + t) == digits_value(t),
    decreases z.len() + t.len(),
{
    if t.len() == 0 {
        assert(z + t =~= z);
        if z.len() > 0 {
            lemma_leading_zeros_value(z.drop_last(), t);
            assert(z.drop_last() + t =~= z.drop_last());
        }
    } else {
        lemma_leading_zeros_value(z, t.drop_last());
        assert((z + t).drop_last() =~= z + t.drop_last());
    }
}

proof fn lemma_zero_padded_value(n: nat, width: nat)
    ensures
        digits_value(zero_padded(n, width)) == n,
{
    lemma_decimal_value(n);
    let d = decimal(n);
    if d.len() < width {
        lemma_leading_zeros_value(Seq::new((width - d.len()) as nat, |i: int| '0'), d);
    }
}

/// Two frames of a bake never share a file name.
pub proof fn lemma_frame_names_distinct(i: nat, j: nat)
    requires
        i != j,
    ensures
        frame_file_name_spec(i) != frame_file_name_spec(j),
{
    let p = "frame_"@;
    let x = zero_padded(i, 4);
    let y = zero_padded(j, 4);
    lemma_zero_padded_value(i, 4);
    lemma_zero_padded_value(j, 4);
    if frame_file_name_spec(i) == frame_file_name_spec(j) {
        let a = frame_file_name_spec(i);
        let b = frame_file_name_spec(j);
        assert(a == p + x + ".png"@);
        assert(b == p + y + ".png"@);
        assert(a.len() == b.len());
        assert(x.len() == y.len());
        assert(a.subrange(p.len() as int, (p.len() + x.len()) as int) =~= x);
        assert(frame_file_name_spec(j).subrange(p.len() as int, (p.len() + y.len()) as int) =~= y);
        assert(x == y);
    }
}

/// The file name of baked frame `i` (see [`frame_file_name_spec`]).
pub fn frame_file_name(i: u32) -> (r: Vec<char>)
    ensures
        r@ == frame_file_name_spec(i as nat),
{
    let mut out: Vec<char> = Vec::new();
    push_str(&mut out, "frame_");
    let mut digits: Vec<char> = Vec::new();
    push_decimal(&mut digits, i);
    proof {
        lemma_decimal_nonempty(i as nat);
    }
    let mut pad: usize = digits.len();
    let ghost before_pad = out@;
    while pad < 4
        invariant
            digits@ == decimal(i as nat),
            digits@.len() <= pad <= 4 || (digits@.len() >= 4 && pad == digits@.len()),
            out@ == before_pad + Seq::new((pad - digits@.len()) as nat, |k: int| '0'),
        decreases 4 - pad,
    {
        out.push('0');
        pad = pad + 1;
        assert(out@ =~= before_pad + Seq::new((pad - digits@.len()) as nat, |k: int| '0'));
    }
    let ghost padded = out@;
    let mut k: usize = 0;
    while k < digits.len()
        invariant
            k <= digits@.len(),
            out@ == padded + digits@.take(k as int),
        decreases digits@.len() - k,
    {
        out.push(digits[k]);
        k = k + 1;
        assert(out@ =~= padded + digits@.take(k as int));
    }
    push_str(&mut out, ".png");
    proof {
        assert(digits@.take(k as int) =~= digits@);
        let d = decimal(i as nat);
        if d.len() >= 4 {
            assert(Seq::new((pad - digits@.len()) as nat, |k: int| '0') =~= Seq::<char>::empty());
            assert(zero_padded(i as nat, 4) == d);
        } else {
            assert(pad == 4);
        }
        assert(out@ =~= frame_file_name_spec(i as nat));
    }
    out
}

/// The manifest of a bake (see [`manifest_spec`]).
pub fn bake_manifest(frames: u32, width: u32, height: u32, gaussians: u32) -> (r: Vec<char>)
    ensures
        r@ == manifest_spec(frames as nat, width as nat, height as nat, gaussians as nat),
{
    let mut out: Vec<char> = Vec::new();
    push_str(&mut out, "{\"frames\":");
    push_decimal(&mut out, frames);
    push_str(&mut out, ",\"width\":");
    push_decimal(&mut out, width);
    push_str(&mut out, ",\"height\":");
    push_decimal(&mut out, height);
    push_str(&mut out, ",\"gaussians\":");
    push_decimal(&mut out, gaussians);
    push_str(&mut out, "}\n");
    assert(out@ =~= manifest_spec(frames as nat, width as nat, height as nat, gaussians as nat));
    out
}

/// `s` read as a `u32` the way `str::parse::<u32>` reads it: an optional `+`
/// and at least one decimal digit, with a value that fits.
pub open spec fn parse_u32_spec(s: Seq<char>) -> Option<u32> {
    match parse_usize_spec(s) {
        Some(v) => if v <= u32::MAX {
            Some(v as u32)
        } else {
            None
        },
        None => None,
    }
}

/// What the bake's command line asks for, as read so far.
pub ghost struct BakeArgsSpec {
    pub model: Option<Seq<char>>,
    pub out: Seq<char>,
    pub frames: u32,
    pub orbit: Seq<Seq<char>>,
}

/// Before any argument: no model, `web/baked`, 24 frames, no orbit value.
pub open spec fn bake_args_default() -> BakeArgsSpec {
    BakeArgsSpec { model: None, out: "web/baked"@, frames: 24, orbit: seq![] }
}

/// A frame count that reads as a `u32` replaces the one before; any other
/// is ignored.
pub open spec fn frames_after(frames: u32, v: Seq<char>) -> u32 {
    match parse_u32_spec(v) {
        Some(n) => n,
        None => frames,
    }
}

/// The arguments from `args[i]` on, read onto `st`. `--model`, `--out`,
/// `--frames` and `--orbit` take the next argument, whatever it is, as their
/// value, and `--model=`, `--out=`, `--frames=` and `--orbit=` the rest of
/// theirs; a later value replaces an earlier one. `--model` as the last
/// argument clears the model; the others as the last argument change
/// nothing. Any other argument is ignored.
pub open spec fn bake_args_from(args: Seq<Seq<char>>, i: int, st: BakeArgsSpec) -> BakeArgsSpec
    decreases args.len() - i,
{
    if i < 0 || i >= args.len() {
        st
    } else {
        let a = args[i];
        let has_next = i + 1 < args.len();
        let next = if has_next {
            i + 2
        } else {
            i + 1
        };
        if a == "--model"@ {
            bake_args_from(
                args,
                next,
                BakeArgsSpec {
                    model: if has_next {
                        Some(args[i + 1])
                    } else {
                        None
                    },
                    ..st
                },
            )
        } else if a == "--out"@ {
            bake_args_from(
                args,
                next,
                if has_next {
                    BakeArgsSpec { out: args[i + 1], ..st }
                } else {
                    st
                },
            )
        } else if a == "--frames"@ {
            bake_args_from(
                args,
                next,
                if has_next {
                    BakeArgsSpec { frames: frames_after(st.frames, args[i + 1]), ..st }
                } else {
                    st
                },
            )
        } else if a == "--orbit"@ {
            bake_args_from(
                args,
                next,
                if has_next {
                    BakeArgsSpec { orbit: st.orbit.push(args[i + 1]), ..st }
                } else {
                    st
                },
            )
        } else if starts_with(a, "--model="@) {
            bake_args_from(
                args,
                i + 1,
                BakeArgsSpec { model: Some(a.skip("--model="@.len() as int)), ..st },
            )
        } else if starts_with(a, "--out="@) {
            bake_args_from(args, i + 1, BakeArgsSpec { out: a.skip("--out="@.len() as int), ..st })
        } else if starts_with(a, "--frames="@) {
            bake_args_from(
                args,
                i + 1,
                BakeArgsSpec {
                    frames: frames_after(st.frames, a.skip("--frames="@.len() as int)),
                    ..st
                },
            )
        } else if starts_with(a, "--orbit="@) {
            bake_args_from(
                args,
                i + 1,
                BakeArgsSpec { orbit: st.orbit.push(a.skip("--orbit="@.len() as int)), ..st },
            )
        } else {
            bake_args_from(args, i + 1, st)
        }
    }
}

/// What the bake's command line asks for. The orbit is a number of turns,
/// which the library does not read: `orbit` holds every value given for it,
/// in order, and the last of them that reads as a number counts (1 when
/// none does).
#[derive(Debug, Clone, PartialEq, Eq)]
pub struct BakeArgs {
    pub model: Option<Vec<char>>,
    pub out: Vec<char>,
    pub frames: u32,
    pub orbit: Vec<Vec<char>>,
}

impl BakeArgs {
    /// The values the arguments hold.
    pub open spec fn view_of(self) -> BakeArgsSpec {
        BakeArgsSpec {
            model: match self.model {
                Some(m) => Some(m@),
                None => None,
            },
            out: self.out@,
            frames: self.frames,
            orbit: self.orbit@.map_values(|v: Vec<char>| v@),
        }
    }
}

fn parse_u32(c: &Vec<char>) -> (r: Option<u32>)
    ensures
        r == parse_u32_spec(c@),
{
    let n: usize = c.len();
    assert(c@.subrange(0, n as int) =~= c@);
    match parse_usize(c, 0, n) {
        Some(v) => if v <= 4294967295usize {
            Some(v as u32)
        } else {
            None
        },
        None => None,
    }
}

/// The value of an argument `flag=value` when `a` is one.
fn value_after(a: &Vec<char>, flag: &str) -> (r: Option<Vec<char>>)
    ensures
        match r {
            Some(v) => starts_with(a@, flag@) && v@ == a@.skip(flag@.len() as int),
            None => !starts_with(a@, flag@),
        },
{
    let f = str_chars(flag);
    let n: usize = a.len();
    assert(a@.subrange(0, n as int) =~= a@);
    if range_starts_with(a, 0, n, &f) {
        let v = copy_range(a, f.len(), n);
        assert(v@ =~= a@.skip(flag@.len() as int));
        Some(v)
    } else {
        None
    }
}

/// Reads the bake's command line (the arguments after the program name; see
/// [`bake_args_from`]).
pub fn bake_args(args: &Vec<String>) -> (r: BakeArgs)
    ensures
        r.view_of() == bake_args_from(strings_view(args@), 0, bake_args_default()),
{
    let ghost all = strings_view(args@);
    let mut r = BakeArgs { model: None, out: str_chars("web/baked"), frames: 24, orbit: Vec::new() };
    assert(r.view_of() == bake_args_default()) by {
        assert(r.view_of().orbit =~= Seq::<Seq<char>>::empty());
    }
    let mut i: usize = 0;
    while i < args.len()
        invariant
            i <= args@.len(),
            all == strings_view(args@),
            bake_args_from(all, 0, bake_args_default()) == bake_args_from(all, i as int, r.view_of()),
        decreases args@.len() - i,
    {
        let a = str_chars(args[i].as_str());
        let ghost st = r.view_of();
        assert(all[i as int] == a@);
        let has_next = i + 1 < args.len();
        let next: usize = if has_next {
            i + 2
        } else {
            i + 1
        };
        if chars_eq_str(&a, "--model") {
            if has_next {
                r.model = Some(str_chars(args[i + 1].as_str()));
            } else {
                r.model = None;
            }
            proof {
                assert(r.view_of().orbit =~= st.orbit);
            }
            i = next;
        } else if chars_eq_str(&a, "--out") {
            if has_next {
                r.out = str_chars(args[i + 1].as_str());
            }
            proof {
                assert(r.view_of().orbit =~= st.orbit);
            }
            i = next;
        } else if chars_eq_str(&a, "--frames") {
            if has_next {
                let v = str_chars(args[i + 1].as_str());
                if let Some(n) = parse_u32(&v) {
                    r.frames = n;
                }
            }
            proof {
                assert(r.view_of().orbit =~= st.orbit);
            }
            i = next;
        } else if chars_eq_str(&a, "--orbit") {
            if has_next {
                r.orbit.push(str_chars(args[i + 1].as_str()));
                proof {
                    assert(r.view_of().orbit =~= st.orbit.push(all[i + 1]));
                }
            }
            i = next;
        } else if let Some(v) = value_after(&a, "--model=") {
            r.model = Some(v);
            proof {
                assert(r.view_of().orbit =~= st.orbit);
            }
            i = i + 1;
        } else if let Some(v) = value_after(&a, "--out=") {
            r.out = v;
            proof {
                assert(r.view_of().orbit =~= st.orbit);
            }
            i = i + 1;
        } else if let Some(v) = value_after(&a, "--frames=") {
            if let Some(n) = parse_u32(&v) {
                r.frames = n;
            }
            proof {
                assert(r.view_of().orbit =~= st.orbit);
            }
            i = i + 1;
        } else if let Some(v) = value_after(&a, "--orbit=") {
            r.orbit.push(v);
            proof {
                assert(r.view_of().orbit =~= st.orbit.push(a@.skip("--orbit="@.len() as int)));
            }
            i = i + 1;
        } else {
            i = i + 1;
        }
    }
    r
}

} // verus!
