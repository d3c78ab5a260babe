use vstd::prelude::*;
use vstd::utf8::encode_utf8;

use crate::platform::Platform;
use crate::profile::Profile;
use crate::text::{concat, is_blank, owned, push_char, replace, replace_all, trim_ws};

verus! {

/// The key under which a profile's password is kept in the credential store.
pub open spec fn credential_key_text(p: Profile) -> Seq<char> {
    p.server@ + "|"@ + p.share@ + "|"@ + p.domain@ + "|"@ + p.username@
}

/// `server|share|domain|username`: the key of a profile's password.
pub fn credential_key(profile: &Profile) -> (r: String)
    ensures
        r@ == credential_key_text(*profile),
{
    let mut r = concat(profile.server.as_str(), "|");
    r.append(profile.share.as_str());
    r.append("|");
    r.append(profile.domain.as_str());
    r.append("|");
    r.append(profile.username.as_str());
    r
}

/// Profiles that agree on server, share, domain and user name have the same
/// credential key, whatever else differs.
pub proof fn lemma_credential_key_stable(a: Profile, b: Profile)
    requires
        a.server@ == b.server@,
        a.share@ == b.share@,
        a.domain@ == b.domain@,
        a.username@ == b.username@,
    ensures
        credential_key_text(a) == credential_key_text(b),
{
}

proof fn lemma_split_at_separator(x: Seq<char>, y: Seq<char>, u: Seq<char>, v: Seq<char>, c: char)
    requires
        x + seq![c] + y == u + seq![c] + v,
        !x.contains(c),
        !u.contains(c),
    ensures
        x == u,
        y == v,
{
    let l = x + seq![c] + y;
    let m = u + seq![c] + v;
    if x.len() < u.len() {
        assert(l[x.len() as int] == c);
        assert(m[x.len() as int] == u[x.len() as int]);
    } else if u.len() < x.len() {
        assert(m[u.len() as int] == c);
        assert(l[u.len() as int] == x[u.len() as int]);
    }
    assert(x =~= l.take(x.len() as int));
    assert(u =~= m.take(u.len() as int));
    assert(y =~= l.skip(x.len() as int + 1));
    assert(v =~= m.skip(u.len() as int + 1));
}

/// The credential key tells the account apart: two profiles whose server,
/// share and domain hold no `|` have the same key only when server, share,
/// domain and user name all agree.
pub proof fn lemma_credential_key_injective(a: Profile, b: Profile)
    requires
        !a.server@.contains('|'),
        !a.share@.contains('|'),
        !a.domain@.contains('|'),
        !b.server@.contains('|'),
        !b.share@.contains('|'),
        !b.domain@.contains('|'),
        credential_key_text(a) == credential_key_text(b),
    ensures
        a.server@ == b.server@,
        a.share@ == b.share@,
        a.domain@ == b.domain@,
        a.username@ == b.username@,
{
    reveal_strlit("|");
    let bar = seq!['|'];
    assert("|"@ =~= bar);
    let ta = a.share@ + bar + (a.domain@ + bar + a.username@);
    let tb = b.share@ + bar + (b.domain@ + bar + b.username@);
    assert(credential_key_text(a) =~= a.server@ + bar + ta);
    assert(credential_key_text(b) =~= b.server@ + bar + tb);
    lemma_split_at_separator(a.server@, ta, b.server@, tb, '|');
    lemma_split_at_separator(a.share@, a.domain@ + bar + a.username@, b.share@, b.domain@ + bar + b.username@, '|');
    lemma_split_at_separator(a.domain@, a.username@, b.domain@, b.username@, '|');
}

/// The user name as the platform's SMB client wants it: bare without a
/// domain, else `domain;user` on macOS and `domain\user` elsewhere.
pub open spec fn qualified_username_text(p: Profile, platform: Platform) -> Seq<char> {
    if trim_ws(p.domain@).len() == 0 {
        p.username@
    } else if platform is MacOs {
        p.domain@ + ";"@ + p.username@
    } else {
        p.domain@ + "\\"@ + p.username@
    }
}

/// The user name qualified by the profile's domain, if it has one.
pub fn qualified_username(profile: &Profile, platform: &Platform) -> (r: String)
    ensures
        r@ == qualified_username_text(*profile, *platform),
{
    if is_blank(profile.domain.as_str()) {
        profile.username.clone()
    } else {
        let sep = match platform {
            Platform::MacOs => ";",
            _ => "\\",
        };
        let mut r = concat(profile.domain.as_str(), sep);
        r.append(profile.username.as_str());
        r
    }
}

pub open spec fn unc_path_text(p: Profile) -> Seq<char> {
    "\\\\"@ + p.server@ + "\\"@ + p.share@
}

/// `\\server\share`.
pub fn windows_unc_path(profile: &Profile) -> (r: String)
    ensures
        r@ == unc_path_text(*profile),
{
    let mut r = concat("\\\\", profile.server.as_str());
    r.append("\\");
    r.append(profile.share.as_str());
    r
}

pub open spec fn drive_mount_text(p: Profile) -> Seq<char> {
    p.default_drive_letter@ + ":"@
}

/// The drive the share is mapped to, such as `Z:`.
pub fn windows_drive_mount(profile: &Profile) -> (r: String)
    ensures
        r@ == drive_mount_text(*profile),
{
    concat(profile.default_drive_letter.as_str(), ":")
}

// ---------------------------------------------------------------------------
// URLs
// ---------------------------------------------------------------------------

/// A byte that stands for itself in a URL path segment: an ASCII letter or
/// digit, or one of `-`, `_`, `.`, `~`.
pub open spec fn is_unreserved(b: u8) -> bool {
    ||| (0x41 <= b && b <= 0x5a)
    ||| (0x61 <= b && b <= 0x7a)
    ||| (0x30 <= b && b <= 0x39)
    ||| b == 0x2d
    ||| b == 0x5f
    ||| b == 0x2e
    ||| b == 0x7e
}

/// The upper-case hex digit for `n` (`n < 16`).
pub open spec fn hex_digit(n: u8) -> char {
    if n < 10 {
        ((n + 0x30) as u8) as char
    } else {
        ((n + 0x37) as u8) as char
    }
}

/// One byte in a URL path segment: itself, or `%` and two hex digits.
pub open spec fn encoded_byte(b: u8) -> Seq<char> {
    if is_unreserved(b) {
        seq![b as char]
    } else {
        seq!['%', hex_digit(b / 16), hex_digit(b % 16)]
    }
}

/// The bytes `bs` percent-encoded for a URL path segment.
pub open spec fn percent_encoded(bs: Seq<u8>) -> Seq<char>
    decreases bs.len(),
{
    if bs.len() == 0 {
        Seq::empty()
    } else {
        percent_encoded(bs.drop_last()) + encoded_byte(bs.last())
    }
}

fn hex_char(n: u8) -> (c: char)
    requires
        n < 16,
    ensures
        c == hex_digit(n),
{
    if n < 10 {
        (n + 0x30) as char
    } else {
        (n + 0x37) as char
    }
}

/// Percent-encodes the UTF-8 bytes of `value` for a URL path segment.
pub fn percent_encode_segment(value: &str) -> (r: String)
    ensures
        r@ == percent_encoded(encode_utf8(value@)),
        percent_decoded(r@) == Some(encode_utf8(value@)),
{
    proof {
        lemma_percent_roundtrip(encode_utf8(value@));
    }
    let bytes = value.as_bytes();
    let mut r = String::new();
    let mut i: usize = 0;
    while i < bytes.len()
        invariant
            i <= bytes@.len(),
            bytes@ == encode_utf8(value@),
            r@ == percent_encoded(bytes@.take(i as int)),
        decreases bytes.len() - i,
    {
        let b = bytes[i];
        if (0x41 <= b && b <= 0x5a) || (0x61 <= b && b <= 0x7a) || (0x30 <= b && b <= 0x39) || b == 0x2d
            || b == 0x5f || b == 0x2e || b == 0x7e {
            push_char(&mut r, b as char);
        } else {
            push_char(&mut r, '%');
            push_char(&mut r, hex_char(b / 16));
            push_char(&mut r, hex_char(b % 16));
        }
        assert(bytes@.take(i + 1).drop_last() =~= bytes@.take(i as int));
        i = i + 1;
    }
    assert(bytes@.take(bytes@.len() as int) =~= bytes@);
    r
}

/// A percent-encoded segment holds no `/`: the whole share name stays one
/// segment of the URL.
pub proof fn lemma_percent_encoded_has_no_slash(bs: Seq<u8>)
    ensures
        !percent_encoded(bs).contains('/'),
    decreases bs.len(),
{
    if bs.len() > 0 {
        lemma_percent_encoded_has_no_slash(bs.drop_last());
        let head = percent_encoded(bs.drop_last());
        let tail = encoded_byte(bs.last());
        let b = bs.last();
        assert forall|k: int| 0 <= k < tail.len() implies tail[k] != '/' by {
            if is_unreserved(b) {
                assert(b != 0x2f);
            } else {
                assert(b / 16 < 16 && b % 16 < 16);
            }
        }
        if percent_encoded(bs).contains('/') {
            let k = choose|k: int| 0 <= k < percent_encoded(bs).len() && percent_encoded(bs)[k] == '/';
            if k < head.len() {
                assert(percent_encoded(bs)[k] == head[k]);
            } else {
                assert(percent_encoded(bs)[k] == tail[k - head.len()]);
            }
        }
    }
}

/// The value of a hex digit of either case.
pub open spec fn hex_value(c: char) -> Option<u8> {
    if '0' <= c && c <= '9' {
        Some(((c as u32) - 0x30) as u8)
    } else if 'A' <= c && c <= 'F' {
        Some(((c as u32) - 0x37) as u8)
    } else if 'a' <= c && c <= 'f' {
        Some(((c as u32) - 0x57) as u8)
    } else {
        None
    }
}

/// The bytes that a percent-encoded text stands for: each `%HH` is the byte
/// `0xHH`, any other ASCII character its own byte. `None` for a `%` without
/// two hex digits, or for a character outside ASCII.
pub open spec fn percent_decoded(t: Seq<char>) -> Option<Seq<u8>>
    decreases t.len(),
{
    if t.len() == 0 {
        Some(Seq::empty())
    } else if t[0] == '%' {
        if t.len() < 3 {
            None
        } else {
            match (hex_value(t[1]), hex_value(t[2]), percent_decoded(t.skip(3))) {
                (Some(h), Some(l), Some(rest)) => Some(seq![(h * 16 + l) as u8] + rest),
                _ => None,
            }
        }
    } else if (t[0] as u32) < 0x80 {
        match percent_decoded(t.drop_first()) {
            Some(rest) => Some(seq![t[0] as u8] + rest),
            None => None,
        }
    } else {
        None
    }
}

proof fn lemma_decode_concat(a: Seq<char>, b: Seq<char>)
    requires
        percent_decoded(a) is Some,
    ensures
        percent_decoded(a + b) == match percent_decoded(b) {
            Some(y) => Some(percent_decoded(a)->Some_0 + y),
            None => None::<Seq<u8>>,
        },
    decreases a.len(),
{
    let ab = a + b;
    if a.len() == 0 {
        assert(ab =~= b);
        assert(Seq::<u8>::empty() + percent_decoded(b)->Some_0 =~= percent_decoded(b)->Some_0);
    } else if a[0] == '%' {
        assert(ab[0] == a[0] && ab[1] == a[1] && ab[2] == a[2]);
        assert(ab.skip(3) =~= a.skip(3) + b);
        lemma_decode_concat(a.skip(3), b);
        let x = percent_decoded(a.skip(3))->Some_0;
        if let Some(y) = percent_decoded(b) {
            let h = seq![(hex_value(a[1])->Some_0 * 16 + hex_value(a[2])->Some_0) as u8];
            assert(h + (x + y) =~= (h + x) + y);
        }
    } else {
        assert(ab[0] == a[0]);
        assert(ab.drop_first() =~= a.drop_first() + b);
        lemma_decode_concat(a.drop_first(), b);
        let x = percent_decoded(a.drop_first())->Some_0;
        if let Some(y) = percent_decoded(b) {
            let h = seq![a[0] as u8];
            assert(h + (x + y) =~= (h + x) + y);
        }
    }
}

proof fn lemma_hex_digit_value(n: u8)
    requires
        n < 16,
    ensures
        hex_value(hex_digit(n)) == Some(n),
{
}

proof fn lemma_decode_byte(b: u8)
    ensures
        percent_decoded(encoded_byte(b)) == Some(seq![b]),
{
    let e = encoded_byte(b);
    if is_unreserved(b) {
        let c = b as char;
        assert(c as u32 == b as u32);
        assert(c as u8 == b);
        assert(e[0] == c);
        assert(c != '%');
        assert(e.drop_first() =~= Seq::<char>::empty());
        assert(percent_decoded(e.drop_first()) == Some(Seq::<u8>::empty()));
        assert(seq![b] + Seq::<u8>::empty() =~= seq![b]);
    } else {
        lemma_hex_digit_value(b / 16);
        lemma_hex_digit_value(b % 16);
        assert(e[0] == '%');
        assert(e.skip(3) =~= Seq::<char>::empty());
        assert(percent_decoded(e.skip(3)) == Some(Seq::<u8>::empty()));
        assert(((b / 16) * 16 + b % 16) as u8 == b) by (nonlinear_arith);
        assert(seq![b] + Seq::<u8>::empty() =~= seq![b]);
    }
}

/// Percent decoding gives back the bytes that were encoded.
pub proof fn lemma_percent_roundtrip(bs: Seq<u8>)
    ensures
        percent_decoded(percent_encoded(bs)) == Some(bs),
    decreases bs.len(),
{
    if bs.len() == 0 {
    } else {
        lemma_percent_roundtrip(bs.drop_last());
        lemma_decode_byte(bs.last());
        lemma_decode_concat(percent_encoded(bs.drop_last()), encoded_byte(bs.last()));
        assert(bs.drop_last() + seq![bs.last()] =~= bs);
    }
}

pub open spec fn smb_url_text(p: Profile) -> Seq<char> {
    "smb://"@ + p.server@ + "/"@ + percent_encoded(encode_utf8(p.share@))
}

/// `smb://server/share`, the share percent-encoded.
pub fn mac_smb_url(profile: &Profile) -> (r: String)
    ensures
        r@ == smb_url_text(*profile),
{
    let mut r = concat("smb://", profile.server.as_str());
    r.append("/");
    let seg = percent_encode_segment(profile.share.as_str());
    r.append(seg.as_str());
    r
}

// ---------------------------------------------------------------------------
// AppleScript
// ---------------------------------------------------------------------------

/// `value` ready to stand between double quotes in AppleScript: each `\`
/// doubled, then each `"` preceded by `\`.
pub open spec fn applescript_escaped(value: Seq<char>) -> Seq<char> {
    replace_all(replace_all(value, "\\"@, "\\\\"@), "\""@, "\\\""@)
}

/// Escapes backslashes and double quotes for an AppleScript string literal.
pub fn applescript_escape(value: &str) -> (r: String)
    ensures
        r@ == applescript_escaped(value@),
{
    proof {
        reveal_strlit("\\");
        reveal_strlit("\"");
    }
    let once = replace(value, "\\", "\\\\");
    replace(once.as_str(), "\"", "\\\"")
}

/// The characters that AppleScript reads from the body of a string literal
/// whose opening quote has been read: `\\`, `\"`, `\n`, `\t` and `\r` are
/// escapes, and a bare `"` would end the literal early (`None`), as would a
/// lone `\` at the end.
pub open spec fn applescript_read(t: Seq<char>) -> Option<Seq<char>>
    decreases t.len(),
{
    if t.len() == 0 {
        Some(Seq::empty())
    } else if t[0] == '"' {
        None
    } else if t[0] == '\\' {
        if t.len() < 2 {
            None
        } else {
            match applescript_read(t.skip(2)) {
                Some(rest) => Some(seq![applescript_unescape(t[1])] + rest),
                None => None,
            }
        }
    } else {
        match applescript_read(t.drop_first()) {
            Some(rest) => Some(seq![t[0]] + rest),
            None => None,
        }
    }
}

/// The character that `\c` stands for in an AppleScript string literal.
pub open spec fn applescript_unescape(c: char) -> char {
    if c == 'n' {
        '\n'
    } else if c == 't' {
        '\t'
    } else if c == 'r' {
        '\r'
    } else {
        c
    }
}

/// `s` with every `c` replaced by `rep`, one character at a time.
spec fn map_char(s: Seq<char>, c: char, rep: Seq<char>) -> Seq<char>
    decreases s.len(),
{
    if s.len() == 0 {
        Seq::empty()
    } else {
        (if s[0] == c {
            rep
        } else {
            seq![s[0]]
        }) + map_char(s.drop_first(), c, rep)
    }
}

/// How one character is escaped.
spec fn escaped_char(c: char) -> Seq<char> {
    if c == '\\' {
        seq!['\\', '\\']
    } else if c == '"' {
        seq!['\\', '"']
    } else {
        seq![c]
    }
}

spec fn escaped_chars(s: Seq<char>) -> Seq<char>
    decreases s.len(),
{
    if s.len() == 0 {
        Seq::empty()
    } else {
        escaped_char(s[0]) + escaped_chars(s.drop_first())
    }
}

proof fn lemma_replace_single_char(s: Seq<char>, c: char, rep: Seq<char>)
    ensures
        replace_all(s, seq![c], rep) == map_char(s, c, rep),
    decreases s.len(),
{
    if s.len() > 0 {
        lemma_replace_single_char(s.drop_first(), c, rep);
        assert(s.take(1) =~= seq![s[0]]);
        assert(s.skip(1) =~= s.drop_first());
        if s[0] != c {
            assert(s.take(1)[0] != seq![c][0]);
        }
    }
}

proof fn lemma_map_char_concat(a: Seq<char>, b: Seq<char>, c: char, rep: Seq<char>)
    ensures
        map_char(a + b, c, rep) == map_char(a, c, rep) + map_char(b, c, rep),
    decreases a.len(),
{
    if a.len() == 0 {
        assert(a + b =~= b);
    } else {
        lemma_map_char_concat(a.drop_first(), b, c, rep);
        assert((a + b).drop_first() =~= a.drop_first() + b);
        assert((a + b)[0] == a[0]);
        let head = if a[0] == c { rep } else { seq![a[0]] };
        assert(head + (map_char(a.drop_first(), c, rep) + map_char(b, c, rep)) =~= (head + map_char(
            a.drop_first(),
            c,
            rep,
        )) + map_char(b, c, rep));
    }
}

proof fn lemma_map_char_small(s: Seq<char>, c: char, rep: Seq<char>)
    requires
        s.len() <= 2,
    ensures
        map_char(s, c, rep) == if s.len() == 0 {
            Seq::<char>::empty()
        } else if s.len() == 1 {
            if s[0] == c { rep } else { s }
        } else {
            (if s[0] == c { rep } else { seq![s[0]] }) + (if s[1] == c { rep } else { seq![s[1]] })
        },
{
    if s.len() > 0 {
        let t = s.drop_first();
        if t.len() > 0 {
            assert(t.drop_first().len() == 0);
            assert(map_char(t.drop_first(), c, rep) =~= Seq::<char>::empty());
            assert(map_char(t, c, rep) =~= (if t[0] == c { rep } else { seq![t[0]] }));
        }
        if s.len() == 1 {
            assert(map_char(t, c, rep) =~= Seq::<char>::empty());
            assert(s =~= seq![s[0]]);
            assert(map_char(s, c, rep) =~= (if s[0] == c { rep } else { seq![s[0]] }));
        } else {
            assert(map_char(s, c, rep) =~= (if s[0] == c { rep } else { seq![s[0]] }) + (if s[1] == c { rep } else { seq![s[1]] }));
        }
    }
}

proof fn lemma_escape_is_per_char(s: Seq<char>)
    ensures
        map_char(map_char(s, '\\', seq!['\\', '\\']), '"', seq!['\\', '"']) == escaped_chars(s),
    decreases s.len(),
{
    if s.len() > 0 {
        lemma_escape_is_per_char(s.drop_first());
        let first = if s[0] == '\\' { seq!['\\', '\\'] } else { seq![s[0]] };
        let rest = map_char(s.drop_first(), '\\', seq!['\\', '\\']);
        lemma_map_char_concat(first, rest, '"', seq!['\\', '"']);
        lemma_map_char_small(first, '"', seq!['\\', '"']);
        assert(map_char(first, '"', seq!['\\', '"']) =~= escaped_char(s[0]));
    }
}

proof fn lemma_read_escaped(s: Seq<char>)
    ensures
        applescript_read(escaped_chars(s)) == Some(s),
    decreases s.len(),
{
    if s.len() == 0 {
        assert(escaped_chars(s) =~= Seq::<char>::empty());
    } else {
        lemma_read_escaped(s.drop_first());
        let e = escaped_chars(s);
        let x = escaped_chars(s.drop_first());
        let c = s[0];
        assert(s =~= seq![c] + s.drop_first());
        if c == '\\' || c == '"' {
            assert(e.skip(2) =~= x);
            assert(e[0] == '\\');
            assert(e[1] == c);
        } else {
            assert(e.drop_first() =~= x);
            assert(e[0] == c);
        }
    }
}

/// AppleScript reads an escaped string back as it was: the quoted literal
/// neither ends early nor changes any character, so URLs, user names and
/// passwords reach `mount volume` intact.
pub proof fn lemma_applescript_roundtrip(value: Seq<char>)
    ensures
        applescript_read(applescript_escaped(value)) == Some(value),
{
    reveal_strlit("\\");
    reveal_strlit("\\\\");
    reveal_strlit("\"");
    reveal_strlit("\\\"");
    assert("\\"@ =~= seq!['\\']);
    assert("\\\\"@ =~= seq!['\\', '\\']);
    assert("\""@ =~= seq!['"']);
    assert("\\\""@ =~= seq!['\\', '"']);
    lemma_replace_single_char(value, '\\', seq!['\\', '\\']);
    lemma_replace_single_char(map_char(value, '\\', seq!['\\', '\\']), '"', seq!['\\', '"']);
    lemma_escape_is_per_char(value);
    lemma_read_escaped(value);
}

} // verus!
