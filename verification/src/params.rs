//! Handshake patterns, tokens, and the read-only pattern catalog.
//!
//! A pattern names two premessage token sequences and an ordered list of
//! message-pattern token sequences; `psk{0..9}` modifiers splice `Psk`
//! tokens into the message patterns.

use vstd::prelude::*;
use crate::error::{Error, PatternProblem};

verus! {

/// Atomic operation of the pattern interpreter.
#[derive(Clone, Copy, Debug, PartialEq, Eq, Structural)]
pub enum Token {
    E,
    S,
    Ee,
    Es,
    Se,
    Ss,
    Psk(u8),
}

/// A handshake pattern symbol from the Noise catalog.
#[derive(Clone, Copy, Debug, PartialEq, Eq, Structural)]
pub enum HandshakePattern {
    N,
    K,
    X,
    NN,
    NK,
    NX,
    XN,
    XK,
    XX,
    KN,
    KK,
    KX,
    IN,
    IK,
    IX,
}

/// A pattern together with its ordered `psk` modifiers, each the index of
/// the pre-shared key it consumes.
#[derive(Clone, Debug)]
pub struct HandshakeChoice {
    pub pattern: HandshakePattern,
    pub modifiers: Vec<u8>,
}

impl HandshakeChoice {
    /// Whether any `psk` modifier is present.
    pub fn is_psk(&self) -> (r: bool)
        ensures
            r == (self.modifiers@.len() > 0),
    {
        self.modifiers.len() > 0
    }
}

/// The inner sequences of a message-pattern list, as mathematical sequences.
pub open spec fn msgs_view(v: Seq<Vec<Token>>) -> Seq<Seq<Token>> {
    Seq::new(v.len(), |i: int| v[i]@)
}

/// ASCII name of a pattern symbol.
pub open spec fn spec_pattern_name(p: HandshakePattern) -> Seq<u8> {
    match p {
        HandshakePattern::N => seq![78u8],
        HandshakePattern::K => seq![75u8],
        HandshakePattern::X => seq![88u8],
        HandshakePattern::NN => seq![78u8, 78u8],
        HandshakePattern::NK => seq![78u8, 75u8],
        HandshakePattern::NX => seq![78u8, 88u8],
        HandshakePattern::XN => seq![88u8, 78u8],
        HandshakePattern::XK => seq![88u8, 75u8],
        HandshakePattern::XX => seq![88u8, 88u8],
        HandshakePattern::KN => seq![75u8, 78u8],
        HandshakePattern::KK => seq![75u8, 75u8],
        HandshakePattern::KX => seq![75u8, 88u8],
        HandshakePattern::IN => seq![73u8, 78u8],
        HandshakePattern::IK => seq![73u8, 75u8],
        HandshakePattern::IX => seq![73u8, 88u8],
    }
}

/// Premessage token sequence of the initiator side.
pub open spec fn spec_premsg_i(p: HandshakePattern) -> Seq<Token> {
    match p {
        HandshakePattern::K => seq![Token::S],
        HandshakePattern::KN => seq![Token::S],
        HandshakePattern::KK => seq![Token::S],
        HandshakePattern::KX => seq![Token::S],
        _ => seq![],
    }
}

/// Premessage token sequence of the responder side.
pub open spec fn spec_premsg_r(p: HandshakePattern) -> Seq<Token> {
    match p {
        HandshakePattern::N => seq![Token::S],
        HandshakePattern::K => seq![Token::S],
        HandshakePattern::X => seq![Token::S],
        HandshakePattern::NK => seq![Token::S],
        HandshakePattern::XK => seq![Token::S],
        HandshakePattern::KK => seq![Token::S],
        HandshakePattern::IK => seq![Token::S],
        _ => seq![],
    }
}

/// The message patterns of the base pattern, before modifiers.
pub open spec fn spec_msg_patterns(p: HandshakePattern) -> Seq<Seq<Token>> {
    match p {
        HandshakePattern::N => seq![seq![Token::E, Token::Es]],
        HandshakePattern::K => seq![seq![Token::E, Token::Es, Token::Ss]],
        HandshakePattern::X => seq![seq![Token::E, Token::Es, Token::S, Token::Ss]],
        HandshakePattern::NN => seq![seq![Token::E], seq![Token::E, Token::Ee]],
        HandshakePattern::NK => seq![seq![Token::E, Token::Es], seq![Token::E, Token::Ee]],
        HandshakePattern::NX => seq![
            seq![Token::E],
            seq![Token::E, Token::Ee, Token::S, Token::Es],
        ],
        HandshakePattern::XN => seq![
            seq![Token::E],
            seq![Token::E, Token::Ee],
            seq![Token::S, Token::Se],
        ],
        HandshakePattern::XK => seq![
            seq![Token::E, Token::Es],
            seq![Token::E, Token::Ee],
            seq![Token::S, Token::Se],
        ],
        HandshakePattern::XX => seq![
            seq![Token::E],
            seq![Token::E, Token::Ee, Token::S, Token::Es],
            seq![Token::S, Token::Se],
        ],
        HandshakePattern::KN => seq![seq![Token::E], seq![Token::E, Token::Ee, Token::Se]],
        HandshakePattern::KK => seq![
            seq![Token::E, Token::Es, Token::Ss],
            seq![Token::E, Token::Ee, Token::Se],
        ],
        HandshakePattern::KX => seq![
            seq![Token::E],
            seq![Token::E, Token::Ee, Token::Se, Token::S, Token::Es],
        ],
        HandshakePattern::IN => seq![
            seq![Token::E, Token::S],
            seq![Token::E, Token::Ee, Token::Se],
        ],
        HandshakePattern::IK => seq![
            seq![Token::E, Token::Es, Token::S, Token::Ss],
            seq![Token::E, Token::Ee, Token::Se],
        ],
        HandshakePattern::IX => seq![
            seq![Token::E, Token::S],
            seq![Token::E, Token::Ee, Token::Se, Token::S, Token::Es],
        ],
    }
}

/// One `psk{n}` modifier applied to a message-pattern list: `psk0` puts the
/// token in front of the first message, `psk{n}` (n >= 1) at the end of the
/// n-th message.
pub open spec fn spec_apply_one_psk(m: Seq<Seq<Token>>, n: u8) -> Seq<Seq<Token>> {
    if n == 0 {
        m.update(0, seq![Token::Psk(0)] + m[0])
    } else {
        m.update(n - 1, m[n - 1].push(Token::Psk(n)))
    }
}

/// All modifiers applied, in order.
pub open spec fn spec_apply_psks(m: Seq<Seq<Token>>, mods: Seq<u8>) -> Seq<Seq<Token>>
    decreases mods.len(),
{
    if mods.len() == 0 {
        m
    } else {
        spec_apply_psks(spec_apply_one_psk(m, mods[0]), mods.drop_first())
    }
}

/// A modifier list is valid for a pattern with `count` messages when every
/// index addresses an existing pre-shared key slot and an existing message.
pub open spec fn spec_mods_valid(mods: Seq<u8>, count: int) -> bool {
    forall|k: int|
        0 <= k < mods.len() ==> (#[trigger] mods[k]) <= 9 && (mods[k] == 0 || mods[k]
            <= count)
}

/// The message patterns a choice leaves after premessages, with `psk`
/// tokens spliced in.
pub open spec fn spec_choice_msg_patterns(c: HandshakeChoice) -> Seq<Seq<Token>> {
    spec_apply_psks(spec_msg_patterns(c.pattern), c.modifiers@)
}

/// ASCII of one `psk{n}` modifier name.
pub open spec fn spec_psk_name(n: u8) -> Seq<u8> {
    seq![112u8, 115u8, 107u8, (48 + n) as u8]
}

/// ASCII of the modifier list: subsequent modifiers are joined with `+`.
pub open spec fn spec_mods_name(mods: Seq<u8>) -> Seq<u8>
    decreases mods.len(),
{
    if mods.len() == 0 {
        seq![]
    } else if mods.len() == 1 {
        spec_psk_name(mods[0])
    } else {
        spec_mods_name(mods.drop_last()) + seq![43u8] + spec_psk_name(mods.last())
    }
}

fn t1(a: Token) -> (r: Vec<Token>)
    ensures
        r@ == seq![a],
{
    let mut v: Vec<Token> = Vec::new();
    v.push(a);
    proof {
        assert(v@ =~= seq![a]);
    }
    v
}

fn t2(a: Token, b: Token) -> (r: Vec<Token>)
    ensures
        r@ == seq![a, b],
{
    let mut v = t1(a);
    v.push(b);
    proof {
        assert(v@ =~= seq![a, b]);
    }
    v
}

fn t3(a: Token, b: Token, c: Token) -> (r: Vec<Token>)
    ensures
        r@ == seq![a, b, c],
{
    let mut v = t2(a, b);
    v.push(c);
    proof {
        assert(v@ =~= seq![a, b, c]);
    }
    v
}

fn t4(a: Token, b: Token, c: Token, d: Token) -> (r: Vec<Token>)
    ensures
        r@ == seq![a, b, c, d],
{
    let mut v = t3(a, b, c);
    v.push(d);
    proof {
        assert(v@ =~= seq![a, b, c, d]);
    }
    v
}

fn t5(a: Token, b: Token, c: Token, d: Token, e: Token) -> (r: Vec<Token>)
    ensures
        r@ == seq![a, b, c, d, e],
{
    let mut v = t4(a, b, c, d);
    v.push(e);
    proof {
        assert(v@ =~= seq![a, b, c, d, e]);
    }
    v
}

/// The premessage tokens of the initiator side.
pub fn premsg_pattern_i(p: HandshakePattern) -> (r: Vec<Token>)
    ensures
        r@ == spec_premsg_i(p),
{
    match p {
        HandshakePattern::K | HandshakePattern::KN | HandshakePattern::KK
            | HandshakePattern::KX => t1(Token::S),
        _ => {
            let v: Vec<Token> = Vec::new();
            proof {
                assert(v@ =~= spec_premsg_i(p));
            }
            v
        },
    }
}

/// The premessage tokens of the responder side.
pub fn premsg_pattern_r(p: HandshakePattern) -> (r: Vec<Token>)
    ensures
        r@ == spec_premsg_r(p),
{
    match p {
        HandshakePattern::N | HandshakePattern::K | HandshakePattern::X | HandshakePattern::NK
            | HandshakePattern::XK | HandshakePattern::KK | HandshakePattern::IK => t1(Token::S),
        _ => {
            let v: Vec<Token> = Vec::new();
            proof {
                assert(v@ =~= spec_premsg_r(p));
            }
            v
        },
    }
}

/// The base message patterns of a pattern symbol.
pub fn base_msg_patterns(p: HandshakePattern) -> (r: Vec<Vec<Token>>)
    ensures
        msgs_view(r@) == spec_msg_patterns(p),
        r@.len() == spec_msg_patterns(p).len(),
{
    let mut m: Vec<Vec<Token>> = Vec::new();
    match p {
        HandshakePattern::N => {
            m.push(t2(Token::E, Token::Es));
        },
        HandshakePattern::K => {
            m.push(t3(Token::E, Token::Es, Token::Ss));
        },
        HandshakePattern::X => {
            m.push(t4(Token::E, Token::Es, Token::S, Token::Ss));
        },
        HandshakePattern::NN => {
            m.push(t1(Token::E));
            m.push(t2(Token::E, Token::Ee));
        },
        HandshakePattern::NK => {
            m.push(t2(Token::E, Token::Es));
            m.push(t2(Token::E, Token::Ee));
        },
        HandshakePattern::NX => {
            m.push(t1(Token::E));
            m.push(t4(Token::E, Token::Ee, Token::S, Token::Es));
        },
        HandshakePattern::XN => {
            m.push(t1(Token::E));
            m.push(t2(Token::E, Token::Ee));
            m.push(t2(Token::S, Token::Se));
        },
        HandshakePattern::XK => {
            m.push(t2(Token::E, Token::Es));
            m.push(t2(Token::E, Token::Ee));
            m.push(t2(Token::S, Token::Se));
        },
        HandshakePattern::XX => {
            m.push(t1(Token::E));
            m.push(t4(Token::E, Token::Ee, Token::S, Token::Es));
            m.push(t2(Token::S, Token::Se));
        },
        HandshakePattern::KN => {
            m.push(t1(Token::E));
            m.push(t3(Token::E, Token::Ee, Token::Se));
        },
        HandshakePattern::KK => {
            m.push(t3(Token::E, Token::Es, Token::Ss));
            m.push(t3(Token::E, Token::Ee, Token::Se));
        },
        HandshakePattern::KX => {
            m.push(t1(Token::E));
            m.push(t5(Token::E, Token::Ee, Token::Se, Token::S, Token::Es));
        },
        HandshakePattern::IN => {
            m.push(t2(Token::E, Token::S));
            m.push(t3(Token::E, Token::Ee, Token::Se));
        },
        HandshakePattern::IK => {
            m.push(t4(Token::E, Token::Es, Token::S, Token::Ss));
            m.push(t3(Token::E, Token::Ee, Token::Se));
        },
        HandshakePattern::IX => {
            m.push(t2(Token::E, Token::S));
            m.push(t5(Token::E, Token::Ee, Token::Se, Token::S, Token::Es));
        },
    }
    proof {
        assert(msgs_view(m@) =~~= spec_msg_patterns(p));
    }
    m
}

/// The message patterns of a choice, with every `psk` modifier applied.
/// Succeeds exactly when the modifier list is valid for the pattern.
pub fn choice_msg_patterns(c: &HandshakeChoice) -> (r: Result<Vec<Vec<Token>>, Error>)
    ensures
        match r {
            Ok(m) => spec_mods_valid(c.modifiers@, spec_msg_patterns(c.pattern).len() as int)
                && msgs_view(m@) == spec_choice_msg_patterns(*c),
            Err(e) => !spec_mods_valid(c.modifiers@, spec_msg_patterns(c.pattern).len() as int)
                && e == Error::Pattern(PatternProblem::UnsupportedModifier),
        },
{
    let mut m = base_msg_patterns(c.pattern);
    let count = m.len();
    let ghost base = msgs_view(m@);

    // validate every modifier first, so failure leaves nothing half-applied
    let mut k: usize = 0;
    while k < c.modifiers.len()
        invariant
            0 <= k <= c.modifiers@.len(),
            count == spec_msg_patterns(c.pattern).len(),
            spec_mods_valid(c.modifiers@.take(k as int), count as int),
        decreases c.modifiers@.len() - k,
    {
        let n = c.modifiers[k];
        if !(n <= 9 && (n == 0 || n as usize <= count)) {
            proof {
                let kk = k as int;
                assert(c.modifiers@[kk] == n);
                assert(!(c.modifiers@[kk] <= 9 && (c.modifiers@[kk] == 0 || c.modifiers@[kk]
                    <= count as int)));
                assert(!spec_mods_valid(c.modifiers@, count as int));
                assert(count as int == spec_msg_patterns(c.pattern).len() as int);
                assert(!spec_mods_valid(c.modifiers@, spec_msg_patterns(c.pattern).len() as int));
            }
            return Err(Error::Pattern(PatternProblem::UnsupportedModifier));
        }
        proof {
            assert(c.modifiers@.take(k + 1).drop_last() =~= c.modifiers@.take(k as int));
            assert(c.modifiers@.take(k + 1).last() == n);
        }
        k = k + 1;
    }
    proof {
        assert(c.modifiers@.take(c.modifiers@.len() as int) =~= c.modifiers@);
    }

    let mut i: usize = 0;
    while i < c.modifiers.len()
        invariant
            0 <= i <= c.modifiers@.len(),
            spec_mods_valid(c.modifiers@, count as int),
            m@.len() == count,
            count == spec_msg_patterns(c.pattern).len(),
            count > 0,
            spec_apply_psks(msgs_view(m@), c.modifiers@.skip(i as int)) == spec_apply_psks(
                base,
                c.modifiers@,
            ),
        decreases c.modifiers@.len() - i,
    {
        let n = c.modifiers[i];
        let ghost before = msgs_view(m@);
        if n == 0 {
            let mut first = m.remove(0);
            first.insert(0, Token::Psk(0));
            m.insert(0, first);
        } else {
            let idx = (n - 1) as usize;
            let mut msg = m.remove(idx);
            msg.push(Token::Psk(n));
            m.insert(idx, msg);
        }
        proof {
            assert(msgs_view(m@) =~~= spec_apply_one_psk(before, n));
            assert(c.modifiers@.skip(i as int).drop_first() =~= c.modifiers@.skip(i + 1));
            assert(c.modifiers@.skip(i as int)[0] == n);
        }
        i = i + 1;
    }
    proof {
        assert(c.modifiers@.skip(c.modifiers@.len() as int) =~= Seq::<u8>::empty());
    }
    Ok(m)
}

fn b1(a: u8) -> (r: Vec<u8>)
    ensures
        r@ == seq![a],
{
    let mut v: Vec<u8> = Vec::new();
    v.push(a);
    proof {
        assert(v@ =~= seq![a]);
    }
    v
}

fn b2(a: u8, b: u8) -> (r: Vec<u8>)
    ensures
        r@ == seq![a, b],
{
    let mut v = b1(a);
    v.push(b);
    proof {
        assert(v@ =~= seq![a, b]);
    }
    v
}

/// ASCII name of the pattern symbol, e.g. `XX`.
pub fn pattern_name_bytes(p: HandshakePattern) -> (r: Vec<u8>)
    ensures
        r@ == spec_pattern_name(p),
{
    match p {
        HandshakePattern::N => b1(78),
        HandshakePattern::K => b1(75),
        HandshakePattern::X => b1(88),
        HandshakePattern::NN => b2(78, 78),
        HandshakePattern::NK => b2(78, 75),
        HandshakePattern::NX => b2(78, 88),
        HandshakePattern::XN => b2(88, 78),
        HandshakePattern::XK => b2(88, 75),
        HandshakePattern::XX => b2(88, 88),
        HandshakePattern::KN => b2(75, 78),
        HandshakePattern::KK => b2(75, 75),
        HandshakePattern::KX => b2(75, 88),
        HandshakePattern::IN => b2(73, 78),
        HandshakePattern::IK => b2(73, 75),
        HandshakePattern::IX => b2(73, 88),
    }
}

/// Appends the ASCII modifier list (e.g. `psk0+psk2`) to `out`.
pub fn push_mods_name(out: &mut Vec<u8>, mods: &Vec<u8>)
    requires
        forall|k: int| 0 <= k < mods@.len() ==> (#[trigger] mods@[k]) <= 9,
    ensures
        final(out)@ == old(out)@ + spec_mods_name(mods@),
{
    let mut i: usize = 0;
    while i < mods.len()
        invariant
            0 <= i <= mods@.len(),
            forall|k: int| 0 <= k < mods@.len() ==> (#[trigger] mods@[k]) <= 9,
            out@ == old(out)@ + spec_mods_name(mods@.take(i as int)),
        decreases mods@.len() - i,
    {
        if i > 0 {
            out.push(43);
        }
        out.push(112);
        out.push(115);
        out.push(107);
        out.push(48 + mods[i]);
        proof {
            assert(mods@.take(i + 1).drop_last() =~= mods@.take(i as int));
            assert(mods@.take(i + 1).last() == mods@[i as int]);
            if i > 0 {
                assert(out@ =~= old(out)@ + spec_mods_name(mods@.take(i + 1)));
            } else {
                assert(out@ =~= old(out)@ + spec_mods_name(mods@.take(1)));
            }
        }
        i = i + 1;
    }
    proof {
        assert(mods@.take(mods@.len() as int) =~= mods@);
    }
}

} // verus!
