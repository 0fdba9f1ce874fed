//! Core domain types shared by the pipeline stages.

use vstd::prelude::*;

use crate::text::string_from_chars;

verus! {

/// Which capture channel a frame or transcript came from.
#[derive(Clone, Copy, Debug, PartialEq, Eq, Structural)]
pub enum FrameSource {
    Mic,
    System,
    Mixed,
}

/// Speaker attribution for one transcript chunk.
#[derive(Clone, Debug, PartialEq, Eq)]
pub enum SpeakerLabel {
    Me,
    Them,
    Named(String),
    Unknown,
}

/// One recognized span of speech.
#[derive(Clone, Debug, PartialEq, Eq)]
pub struct TranscriptChunk {
    pub text: String,
    pub source: FrameSource,
    pub start_ms: u64,
    pub duration_ms: u64,
    pub language: Option<String>,
    /// Per-token timestamps, when the recognizer reports them.
    pub tokens: Vec<TokenTiming>,
}

impl TranscriptChunk {
    /// Field-for-field equality, comparing the token lists by content.
    pub open spec fn same_as(&self, o: TranscriptChunk) -> bool {
        &&& self.text == o.text
        &&& self.source == o.source
        &&& self.start_ms == o.start_ms
        &&& self.duration_ms == o.duration_ms
        &&& self.language == o.language
        &&& self.tokens@ == o.tokens@
    }

    /// A copy of this chunk, field for field.
    pub fn duplicate(&self) -> (c: TranscriptChunk)
        ensures
            c.same_as(*self),
    {
        TranscriptChunk {
            text: self.text.clone(),
            source: self.source,
            start_ms: self.start_ms,
            duration_ms: self.duration_ms,
            language: match &self.language {
                Some(l) => Some(l.clone()),
                None => None,
            },
            tokens: copy_tokens(&self.tokens),
        }
    }
}

/// A copy of a token list, element for element.
pub fn copy_tokens(v: &Vec<TokenTiming>) -> (r: Vec<TokenTiming>)
    ensures
        r@ == v@,
{
    let mut r: Vec<TokenTiming> = Vec::new();
    let mut i: usize = 0;
    while i < v.len()
        invariant
            i <= v@.len(),
            r@ == v@.take(i as int),
        decreases v@.len() - i,
    {
        let t = TokenTiming { token: v[i].token.clone(), timestamp_ms: v[i].timestamp_ms };
        r.push(t);
        assert(r@ =~= v@.take(i + 1));
        i = i + 1;
    }
    assert(v@.take(v@.len() as int) == v@);
    r
}

/// A transcript chunk with its speaker.
#[derive(Clone, Debug, PartialEq, Eq)]
pub struct AttributedChunk {
    pub chunk: TranscriptChunk,
    pub speaker: SpeakerLabel,
}

/// How the platform asks the user for capture permission.
#[derive(Clone, Copy, Debug, PartialEq, Eq, Structural)]
pub enum PermissionModel {
    CoreAudioTap,
    ScreenRecording,
    PulseAudio,
    Wasapi,
    MediaProjection,
}

/// Static metadata about what a capture implementation can do.
#[derive(Clone, Debug, PartialEq, Eq)]
pub struct Capabilities {
    pub supports_system_audio: bool,
    pub supports_per_app_capture: bool,
    pub native_sample_rates: Vec<u32>,
    pub permission_model: PermissionModel,
}

/// The consent step's mode. `Quick` is the floor.
#[derive(Clone, Copy, Debug, PartialEq, Eq, Structural)]
pub enum ConsentMode {
    Quick,
    Notify,
    Announce,
}

impl Default for ConsentMode {
    fn default() -> (m: Self)
        ensures
            m == ConsentMode::Quick,
    {
        ConsentMode::Quick
    }
}

/// A per-token timestamp relative to session start.
#[derive(Clone, Debug, PartialEq, Eq)]
pub struct TokenTiming {
    pub token: String,
    pub timestamp_ms: u64,
}


/// A session identifier: a 128-bit ULID, rendered as 26 Crockford
/// base-32 characters.
#[derive(Clone, Copy, Debug, PartialEq, Eq, Structural)]
pub struct SessionId(pub u128);

impl Default for SessionId {
    fn default() -> (id: Self)
        ensures
            id.0 == 0,
    {
        SessionId(0)
    }
}

/// The Crockford base-32 digit for `d < 32`.
pub open spec fn crockford_digit(d: nat) -> char {
    "0123456789ABCDEFGHJKMNPQRSTVWXYZ"@[d as int]
}

/// The `n` least significant base-32 digits of `v`, most significant
/// first.
pub open spec fn base32_text(v: nat, n: nat) -> Seq<char>
    decreases n,
{
    if n == 0 {
        Seq::empty()
    } else {
        base32_text(v / 32, (n - 1) as nat) + seq![crockford_digit(v % 32)]
    }
}

impl SessionId {
    /// The 26-character ULID text of this identifier.
    pub fn to_string_26(&self) -> (s: String)
        ensures
            s@ == base32_text(self.0 as nat, 26),
    {
        let alphabet: Vec<char> = crate::text::chars_of("0123456789ABCDEFGHJKMNPQRSTVWXYZ");
        proof {
            reveal_strlit("0123456789ABCDEFGHJKMNPQRSTVWXYZ");
        }
        let mut rest: u128 = self.0;
        let mut rev: Vec<char> = Vec::new();
        let mut i: usize = 0;
        while i < 26
            invariant
                alphabet@ == "0123456789ABCDEFGHJKMNPQRSTVWXYZ"@,
                alphabet@.len() == 32,
                i <= 26,
                rev@.len() == i,
                base32_text(self.0 as nat, 26) == base32_text(rest as nat, (26 - i) as nat)
                    + rev@.reverse(),
            decreases 26 - i,
        {
            let d = (rest % 32) as usize;
            let c = alphabet[d];
            let ghost old_rev = rev@;
            rev.push(c);
            proof {
                assert(base32_text(rest as nat, (26 - i) as nat) == base32_text(
                    (rest / 32) as nat,
                    (26 - i - 1) as nat,
                ) + seq![crockford_digit((rest % 32) as nat)]);
                assert(rev@.reverse() =~= seq![c] + old_rev.reverse());
            }
            rest = rest / 32;
            i = i + 1;
        }
        let mut out: Vec<char> = Vec::new();
        let mut k: usize = rev.len();
        while k > 0
            invariant
                k <= rev@.len(),
                out@ == rev@.subrange(k as int, rev@.len() as int).reverse(),
            decreases k,
        {
            k = k - 1;
            out.push(rev[k]);
            assert(out@ =~= rev@.subrange(k as int, rev@.len() as int).reverse());
        }
        assert(rev@.subrange(0, rev@.len() as int) == rev@);
        string_from_chars(out.as_slice())
    }
}


/// The value of a Crockford base-32 digit (upper or lower case).
pub open spec fn crockford_value(c: char) -> Option<nat> {
    let u: int = if 'a' <= c && c <= 'z' {
        (c as int) - 32
    } else {
        c as int
    };
    if 48 <= u && u <= 57 {
        Some((u - 48) as nat)
    } else if 65 <= u && u <= 72 {
        Some((u - 55) as nat)
    } else if u == 74 || u == 75 {
        Some((u - 56) as nat)
    } else if u == 77 || u == 78 {
        Some((u - 57) as nat)
    } else if 80 <= u && u <= 84 {
        Some((u - 58) as nat)
    } else if 86 <= u && u <= 90 {
        Some((u - 59) as nat)
    } else {
        None
    }
}

/// `32^n`.
pub open spec fn pow32(n: nat) -> nat
    decreases n,
{
    if n == 0 {
        1
    } else {
        pow32((n - 1) as nat) * 32
    }
}

/// The number the base-32 digits `cs` spell, most significant first.
pub open spec fn base32_value(cs: Seq<char>) -> nat
    decreases cs.len(),
{
    if cs.len() == 0 {
        0
    } else {
        base32_value(cs.drop_last()) * 32 + crockford_value(cs.last()).unwrap_or(0)
    }
}

/// `s` is the text of a ULID: 26 base-32 digits spelling a number below
/// `2^128`.
pub open spec fn is_ulid_text(s: Seq<char>) -> bool {
    &&& s.len() == 26
    &&& forall|i: int| 0 <= i < 26 ==> (crockford_value(#[trigger] s[i]) is Some)
    &&& base32_value(s) < 0x1_0000_0000_0000_0000_0000_0000_0000_0000
}

fn crockford_value_exec(c: char) -> (r: Option<u128>)
    ensures
        match crockford_value(c) {
            Some(v) => r == Some(v as u128) && v < 32,
            None => r is None,
        },
{
    let u: u32 = if 'a' <= c && c <= 'z' {
        (c as u32) - 32
    } else {
        c as u32
    };
    if 48 <= u && u <= 57 {
        Some((u - 48) as u128)
    } else if 65 <= u && u <= 72 {
        Some((u - 55) as u128)
    } else if u == 74 || u == 75 {
        Some((u - 56) as u128)
    } else if u == 77 || u == 78 {
        Some((u - 57) as u128)
    } else if 80 <= u && u <= 84 {
        Some((u - 58) as u128)
    } else if 86 <= u && u <= 90 {
        Some((u - 59) as u128)
    } else {
        None
    }
}

proof fn lemma_pow32_128()
    ensures
        8 * pow32(25) == 0x1_0000_0000_0000_0000_0000_0000_0000_0000,
        pow32(26) == 32 * pow32(25),
{
    reveal_with_fuel(pow32, 27);
}

proof fn lemma_pow32_pos(n: nat)
    ensures
        pow32(n) >= 1,
    decreases n,
{
    if n > 0 {
        lemma_pow32_pos((n - 1) as nat);
    }
}

/// The digits of `cs[..k]` spell at least the first digit times
/// `32^(k-1)`.
proof fn lemma_base32_lower(cs: Seq<char>, k: int)
    requires
        1 <= k <= cs.len(),
        forall|j: int| 0 <= j < cs.len() ==> (crockford_value(#[trigger] cs[j]) is Some),
    ensures
        base32_value(cs.subrange(0, k)) >= crockford_value(cs[0])->0 * pow32((k - 1) as nat),
    decreases k,
{
    if k > 1 {
        lemma_base32_lower(cs, k - 1);
        assert(cs.subrange(0, k).drop_last() =~= cs.subrange(0, k - 1));
        let f = crockford_value(cs[0])->0;
        let a = base32_value(cs.subrange(0, k - 1));
        assert(base32_value(cs.subrange(0, k)) == a * 32 + crockford_value(
            cs.subrange(0, k).last(),
        ).unwrap_or(0));
        assert(pow32((k - 1) as nat) == pow32((k - 2) as nat) * 32);
        assert(f * pow32((k - 1) as nat) == f * pow32((k - 2) as nat) * 32) by (nonlinear_arith)
            requires
                pow32((k - 1) as nat) == pow32((k - 2) as nat) * 32,
        ;
        assert(a * 32 >= f * pow32((k - 2) as nat) * 32);
    } else {
        assert(cs.subrange(0, 1).drop_last() =~= Seq::<char>::empty());
        assert(cs.subrange(0, 1).last() == cs[0]);
        assert(base32_value(Seq::<char>::empty()) == 0);
        assert(pow32(0) == 1);
        assert(base32_value(cs.subrange(0, 1)) == crockford_value(cs[0])->0);
        let f = crockford_value(cs[0])->0;
        assert(f * pow32(0) == f) by (nonlinear_arith)
            requires
                pow32(0) == 1,
        ;
    }
}

proof fn lemma_crockford_round_trip(d: nat)
    requires
        d < 32,
    ensures
        crockford_value(crockford_digit(d)) == Some(d),
{
    reveal_strlit("0123456789ABCDEFGHJKMNPQRSTVWXYZ");
    if d == 0 {
        assert(crockford_digit(0) == '0');
    } else if d == 1 {
        assert(crockford_digit(1) == '1');
    } else if d == 2 {
        assert(crockford_digit(2) == '2');
    } else if d == 3 {
        assert(crockford_digit(3) == '3');
    } else if d == 4 {
        assert(crockford_digit(4) == '4');
    } else if d == 5 {
        assert(crockford_digit(5) == '5');
    } else if d == 6 {
        assert(crockford_digit(6) == '6');
    } else if d == 7 {
        assert(crockford_digit(7) == '7');
    } else if d == 8 {
        assert(crockford_digit(8) == '8');
    } else if d == 9 {
        assert(crockford_digit(9) == '9');
    } else if d == 10 {
        assert(crockford_digit(10) == 'A');
    } else if d == 11 {
        assert(crockford_digit(11) == 'B');
    } else if d == 12 {
        assert(crockford_digit(12) == 'C');
    } else if d == 13 {
        assert(crockford_digit(13) == 'D');
    } else if d == 14 {
        assert(crockford_digit(14) == 'E');
    } else if d == 15 {
        assert(crockford_digit(15) == 'F');
    } else if d == 16 {
        assert(crockford_digit(16) == 'G');
    } else if d == 17 {
        assert(crockford_digit(17) == 'H');
    } else if d == 18 {
        assert(crockford_digit(18) == 'J');
    } else if d == 19 {
        assert(crockford_digit(19) == 'K');
    } else if d == 20 {
        assert(crockford_digit(20) == 'M');
    } else if d == 21 {
        assert(crockford_digit(21) == 'N');
    } else if d == 22 {
        assert(crockford_digit(22) == 'P');
    } else if d == 23 {
        assert(crockford_digit(23) == 'Q');
    } else if d == 24 {
        assert(crockford_digit(24) == 'R');
    } else if d == 25 {
        assert(crockford_digit(25) == 'S');
    } else if d == 26 {
        assert(crockford_digit(26) == 'T');
    } else if d == 27 {
        assert(crockford_digit(27) == 'V');
    } else if d == 28 {
        assert(crockford_digit(28) == 'W');
    } else if d == 29 {
        assert(crockford_digit(29) == 'X');
    } else if d == 30 {
        assert(crockford_digit(30) == 'Y');
    } else if d == 31 {
        assert(crockford_digit(31) == 'Z');
    }
}

/// The 26 digits of a 128-bit value read back as that value.
proof fn lemma_base32_text_value(v: nat, n: nat)
    ensures
        base32_text(v, n).len() == n,
        forall|i: int| 0 <= i < n ==> (crockford_value(#[trigger] base32_text(v, n)[i]) is Some),
        base32_value(base32_text(v, n)) == v % pow32(n),
    decreases n,
{
    if n > 0 {
        lemma_base32_text_value(v / 32, (n - 1) as nat);
        lemma_crockford_round_trip(v % 32);
        lemma_pow32_pos((n - 1) as nat);
        let t = base32_text(v, n);
        let p = base32_text(v / 32, (n - 1) as nat);
        assert(t.drop_last() =~= p);
        assert(t.last() == crockford_digit(v % 32));
        assert forall|i: int| 0 <= i < n implies (crockford_value(#[trigger] t[i]) is Some) by {
            if i < n - 1 {
                assert(t[i] == p[i]);
            }
        }
        vstd::arithmetic::div_mod::lemma_mod_breakdown(v as int, 32, pow32((n - 1) as nat) as int);
        assert(32 * pow32((n - 1) as nat) == pow32(n));
    }
}

/// Reading back the text of an identifier gives the identifier.
pub proof fn ulid_text_round_trip(id: SessionId)
    ensures
        is_ulid_text(base32_text(id.0 as nat, 26)),
        base32_value(base32_text(id.0 as nat, 26)) == id.0,
{
    lemma_base32_text_value(id.0 as nat, 26);
    lemma_pow32_128();
    vstd::arithmetic::div_mod::lemma_small_mod(id.0 as nat, pow32(26));
}

impl SessionId {
    /// Reads the 26-character text of a ULID (digits in either case).
    pub fn parse_26(s: &str) -> (r: Option<SessionId>)
        ensures
            is_ulid_text(s@) ==> r == Some(SessionId(base32_value(s@) as u128)),
            !is_ulid_text(s@) ==> r is None,
    {
        let cs = crate::text::chars_of(s);
        if cs.len() != 26 {
            return None;
        }
        let mut v: u128 = 0;
        let mut i: usize = 0;
        proof {
            lemma_pow32_128();
        }
        while i < 26
            invariant
                i <= 26,
                cs@ == s@,
                cs@.len() == 26,
                8 * pow32(25) == 0x1_0000_0000_0000_0000_0000_0000_0000_0000,
                forall|j: int| 0 <= j < i ==> (crockford_value(#[trigger] cs@[j]) is Some),
                v as nat == base32_value(cs@.subrange(0, i as int)),
                i > 0 ==> v < 8 * pow32((i - 1) as nat),
            decreases 26 - i,
        {
            let d = match crockford_value_exec(cs[i]) {
                Some(d) => d,
                None => {
                    return None;
                },
            };
            if i == 0 && d > 7 {
                proof {
                    assert forall|j: int| 0 <= j < cs@.len() implies (crockford_value(
                        #[trigger] cs@[j],
                    ) is Some) || !is_ulid_text(s@) by {}
                    if is_ulid_text(s@) {
                        lemma_base32_lower(cs@, 26);
                        assert(cs@.subrange(0, 26) =~= cs@);
                        assert(crockford_value(cs@[0])->0 * pow32(25) >= 8 * pow32(25)) by (
                        nonlinear_arith)
                            requires
                                crockford_value(cs@[0])->0 >= 8,
                        ;
                    }
                }
                return None;
            }
            proof {
                assert(cs@.subrange(0, i + 1).drop_last() =~= cs@.subrange(0, i as int));
                assert(cs@.subrange(0, i + 1).last() == cs@[i as int]);
                if i > 0 {
                    lemma_pow32_mono((i - 1) as nat, 24);
                    assert(v * 32 + d < 8 * pow32(i as nat));
                }
            }
            v = v * 32 + d;
            i = i + 1;
        }
        assert(cs@.subrange(0, 26) =~= cs@);
        Some(SessionId(v))
    }
}

proof fn lemma_pow32_mono(a: nat, b: nat)
    requires
        a <= b,
    ensures
        pow32(a) <= pow32(b),
    decreases b - a,
{
    if a < b {
        lemma_pow32_mono(a, (b - 1) as nat);
    }
}

/// The recorded consent step of a session.
#[derive(Clone, Debug, PartialEq, Eq)]
pub struct ConsentAttestation {
    pub mode: ConsentMode,
    /// When consent was attested, in milliseconds since the Unix epoch.
    pub attested_at_ms: i64,
    pub by_user: String,
    pub chat_message_sent: bool,
    pub chat_message_target: Option<String>,
    pub tts_announce_played: bool,
}

impl ConsentAttestation {
    /// An attestation in `mode` by `by_user` at `attested_at_ms`, with no
    /// chat message sent and no announcement played.
    pub fn new(mode: ConsentMode, by_user: &str, attested_at_ms: i64) -> (a: ConsentAttestation)
        ensures
            a.mode == mode,
            a.by_user@ == by_user@,
            a.attested_at_ms == attested_at_ms,
            !a.chat_message_sent,
            a.chat_message_target is None,
            !a.tts_announce_played,
    {
        ConsentAttestation {
            mode,
            attested_at_ms,
            by_user: by_user.to_owned(),
            chat_message_sent: false,
            chat_message_target: None,
            tts_announce_played: false,
        }
    }
}

} // verus!
