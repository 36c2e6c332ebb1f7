//! The token encoder: a closed set of statically sized values, each encoded
//! as one 32-byte word, the words concatenated in input order.
//!
//! The layout of a single word is taken from the `ethabi` crate; rejecting
//! ill-sized input and joining the words is done, and proved, here.

use vstd::prelude::*;
use vstd::arithmetic::div_mod::lemma_basic_div;
use vstd::arithmetic::power::{lemma_pow0, lemma_pow1, lemma_pow_increases, pow};

verus! {

/// A 256-bit unsigned integer, held as four 64-bit limbs, least significant
/// limb first.
#[derive(Clone, Copy, Debug)]
pub struct Uint256 {
    pub limbs: [u64; 4],
}

impl Uint256 {
    /// The integer that the limbs stand for.
    pub open spec fn value(self) -> nat {
        (self.limbs@[0] as nat) + (self.limbs@[1] as nat) * 0x1_0000_0000_0000_0000nat
            + (self.limbs@[2] as nat) * 0x1_0000_0000_0000_0000_0000_0000_0000_0000nat
            + (self.limbs@[3] as nat)
            * 0x1_0000_0000_0000_0000_0000_0000_0000_0000_0000_0000_0000_0000nat
    }

    /// Every value of the type is below `2^256`.
    pub proof fn lemma_value_bound(self)
        ensures
            self.value() < uint256_limit(),
    {
    }

    /// The integer `n`, widened to 256 bits.
    pub fn from_u64(n: u64) -> (r: Uint256)
        ensures
            r.value() == n,
            r.limbs@ == seq![n, 0u64, 0u64, 0u64],
    {
        Uint256 { limbs: [n, 0, 0, 0] }
    }
}

impl View for Uint256 {
    type V = nat;

    open spec fn view(&self) -> nat {
        self.value()
    }
}

/// `2^256`, the first integer that no [`Uint256`] holds.
pub open spec fn uint256_limit() -> nat {
    0x1_0000_0000_0000_0000_0000_0000_0000_0000_0000_0000_0000_0000_0000_0000_0000_0000nat
}

/// A value that the encoder accepts.
#[derive(Clone, Debug)]
pub enum Token {
    /// A byte string of fixed size. Only strings of exactly 32 bytes encode.
    FixedBytes(Vec<u8>),
    /// A 256-bit unsigned integer.
    UnsignedInt(Uint256),
    /// A 20-byte address.
    Address([u8; 20]),
}

/// What a [`Token`] stands for.
pub enum TokenView {
    FixedBytes(Seq<u8>),
    UnsignedInt(nat),
    Address(Seq<u8>),
}

impl View for Token {
    type V = TokenView;

    open spec fn view(&self) -> TokenView {
        match *self {
            Token::FixedBytes(bytes) => TokenView::FixedBytes(bytes@),
            Token::UnsignedInt(n) => TokenView::UnsignedInt(n.value()),
            Token::Address(address) => TokenView::Address(address@),
        }
    }
}

impl TokenView {
    /// A token encodes when it fills exactly one word: fixed bytes of length
    /// 32, an integer below `2^256`, an address of length 20.
    pub open spec fn encodable(self) -> bool {
        match self {
            TokenView::FixedBytes(bytes) => bytes.len() == 32,
            TokenView::UnsignedInt(n) => n < uint256_limit(),
            TokenView::Address(address) => address.len() == 20,
        }
    }
}

/// `count` zero bytes.
pub open spec fn zero_bytes(count: nat) -> Seq<u8> {
    Seq::new(count, |i: int| 0u8)
}

/// The 32 base-256 digits of `n`, most significant first.
pub open spec fn big_endian_word(n: nat) -> Seq<u8> {
    Seq::new(32, |i: int| ((n as int / pow(256, (31 - i) as nat)) % 256) as u8)
}

/// The word that encodes one token: fixed bytes as they are, an integer in
/// big-endian order, an address behind twelve zero bytes.
pub open spec fn token_word(token: TokenView) -> Seq<u8> {
    match token {
        TokenView::FixedBytes(bytes) => bytes,
        TokenView::UnsignedInt(n) => big_endian_word(n),
        TokenView::Address(address) => zero_bytes(12) + address,
    }
}

/// The views of a sequence of tokens.
pub open spec fn token_views(tokens: Seq<Token>) -> Seq<TokenView> {
    tokens.map_values(|t: Token| t@)
}

/// Whether every token of the sequence encodes.
pub open spec fn all_encodable(tokens: Seq<TokenView>) -> bool {
    forall|i: int| 0 <= i < tokens.len() ==> (#[trigger] tokens[i]).encodable()
}

/// Whether `index` is the position of the first token that does not encode.
pub open spec fn first_unencodable(tokens: Seq<TokenView>, index: int) -> bool {
    &&& 0 <= index < tokens.len()
    &&& !tokens[index].encodable()
    &&& forall|j: int| 0 <= j < index ==> (#[trigger] tokens[j]).encodable()
}

/// The encoding of a sequence of tokens: byte `i` is byte `i % 32` of the
/// word of token `i / 32`.
pub open spec fn encode_tokens(tokens: Seq<TokenView>) -> Seq<u8> {
    Seq::new(32 * tokens.len(), |i: int| token_word(tokens[i / 32])[i % 32])
}

/// The word of an encodable token has exactly 32 bytes.
pub proof fn lemma_token_word_len(token: TokenView)
    requires
        token.encodable(),
    ensures
        token_word(token).len() == 32,
{
}

/// The word of an integer below 256 is thirty-one zero bytes and the integer.
pub proof fn lemma_small_integer_word(n: nat)
    requires
        n < 256,
    ensures
        big_endian_word(n) == zero_bytes(31).push(n as u8),
{
    let word = big_endian_word(n);
    let expected = zero_bytes(31).push(n as u8);
    assert forall|i: int| 0 <= i < 32 implies word[i] == expected[i] by {
        if i < 31 {
            lemma_pow1(256);
            lemma_pow_increases(256, 1, (31 - i) as nat);
            lemma_basic_div(n as int, pow(256, (31 - i) as nat));
        } else {
            lemma_pow0(256);
        }
    }
    assert(word =~= expected);
}

/// Encoding one more token appends its word.
pub proof fn lemma_encode_tokens_push(tokens: Seq<TokenView>, token: TokenView)
    requires
        token.encodable(),
    ensures
        encode_tokens(tokens.push(token)) == encode_tokens(tokens) + token_word(token),
{
    let left = encode_tokens(tokens.push(token));
    let right = encode_tokens(tokens) + token_word(token);
    assert(left.len() == right.len());
    assert forall|i: int| 0 <= i < left.len() implies left[i] == right[i] by {
        if i < 32 * tokens.len() {
            assert(i / 32 < tokens.len());
            assert(tokens.push(token)[i / 32] == tokens[i / 32]);
        } else {
            assert(i / 32 == tokens.len());
            assert(i % 32 == i - 32 * tokens.len());
        }
    }
    assert(left =~= right);
}

/// In the encoding of encodable tokens, the word of token `k` stands at
/// offset `32 * k`.
pub proof fn lemma_encode_tokens_word(tokens: Seq<TokenView>, k: int)
    requires
        all_encodable(tokens),
        0 <= k < tokens.len(),
    ensures
        encode_tokens(tokens).subrange(32 * k, 32 * k + 32) == token_word(tokens[k]),
{
    let block = encode_tokens(tokens).subrange(32 * k, 32 * k + 32);
    let word = token_word(tokens[k]);
    assert(tokens[k].encodable());
    assert forall|i: int| 0 <= i < 32 implies block[i] == word[i] by {
        assert((32 * k + i) / 32 == k);
        assert((32 * k + i) % 32 == i);
    }
    assert(block =~= word);
}

/// Why a sequence of tokens was not encoded.
#[derive(Clone, Copy, Debug, PartialEq, Eq)]
pub enum EncodeError {
    /// The token at `index` holds fixed bytes whose length is not 32; no
    /// earlier token does.
    FixedBytesLength { index: usize },
}

impl Token {
    /// A fixed-bytes token that holds a 32-byte digest.
    pub fn digest(digest: &[u8; 32]) -> (token: Token)
        ensures
            token@ == TokenView::FixedBytes(digest@),
            token@.encodable(),
    {
        let mut bytes: Vec<u8> = Vec::new();
        let mut i: usize = 0;
        while i < 32
            invariant
                i <= 32,
                bytes@ == digest@.take(i as int),
            decreases 32 - i,
        {
            bytes.push(digest[i]);
            i += 1;
            assert(bytes@ =~= digest@.take(i as int));
        }
        assert(bytes@ =~= digest@);
        Token::FixedBytes(bytes)
    }

    /// Whether the token encodes, that is, fills exactly one word.
    pub fn is_encodable(&self) -> (ok: bool)
        ensures
            ok == self@.encodable(),
    {
        match self {
            Token::FixedBytes(bytes) => bytes.len() == 32,
            Token::UnsignedInt(n) => {
                proof {
                    n.lemma_value_bound();
                }
                true
            },
            Token::Address(_) => true,
        }
    }
}

/// Calls `ethabi::encode` on the one token. Trusted: for a token that fills
/// one word, the bytes returned are that word as [`token_word`] gives it:
/// 32 fixed bytes unchanged, an integer as its 32-byte big-endian form, an
/// address behind twelve zero bytes.
#[verifier::external_body]
fn abi_word(token: &Token) -> (word: Vec<u8>)
    requires
        token@.encodable(),
    ensures
        word@ == token_word(token@),
{
    let outside = match token {
        Token::FixedBytes(bytes) => ethabi::Token::FixedBytes(bytes.clone()),
        Token::UnsignedInt(n) => ethabi::Token::Uint(ethabi::ethereum_types::U256(n.limbs)),
        Token::Address(address) => ethabi::Token::Address(ethabi::Address::from(*address)),
    };
    ethabi::encode(&[outside])
}

/// The position of the first token that does not encode, if there is one.
pub fn find_unencodable(tokens: &[Token]) -> (found: Option<usize>)
    ensures
        match found {
            Some(index) => first_unencodable(token_views(tokens@), index as int),
            None => all_encodable(token_views(tokens@)),
        },
{
    let mut i: usize = 0;
    while i < tokens.len()
        invariant
            i <= tokens.len(),
            forall|j: int| 0 <= j < i ==> (#[trigger] token_views(tokens@)[j]).encodable(),
        decreases tokens.len() - i,
    {
        if !tokens[i].is_encodable() {
            return Some(i);
        }
        i += 1;
    }
    None
}

/// Encodes tokens that are known to encode.
pub(crate) fn encode_words(tokens: &[Token]) -> (bytes: Vec<u8>)
    requires
        all_encodable(token_views(tokens@)),
    ensures
        bytes@ == encode_tokens(token_views(tokens@)),
        bytes@.len() == 32 * tokens@.len(),
{
    let ghost views = token_views(tokens@);
    let mut bytes: Vec<u8> = Vec::new();
    let mut i: usize = 0;
    assert(bytes@ =~= encode_tokens(views.take(0)));
    while i < tokens.len()
        invariant
            i <= tokens.len(),
            views == token_views(tokens@),
            all_encodable(views),
            bytes@ == encode_tokens(views.take(i as int)),
        decreases tokens.len() - i,
    {
        assert(views[i as int].encodable());
        let mut word = abi_word(&tokens[i]);
        proof {
            lemma_encode_tokens_push(views.take(i as int), views[i as int]);
            assert(views.take(i as int).push(views[i as int]) =~= views.take(i + 1));
        }
        bytes.append(&mut word);
        i += 1;
    }
    assert(views.take(i as int) =~= views);
    bytes
}

/// Encodes the tokens, each as one 32-byte word, in input order. Fixed bytes
/// whose length is not 32 are rejected: the error names the first such token.
pub fn encode(tokens: &[Token]) -> (result: Result<Vec<u8>, EncodeError>)
    ensures
        match result {
            Ok(bytes) => {
                &&& all_encodable(token_views(tokens@))
                &&& bytes@ == encode_tokens(token_views(tokens@))
                &&& bytes@.len() == 32 * tokens@.len()
            },
            Err(EncodeError::FixedBytesLength { index }) => first_unencodable(
                token_views(tokens@),
                index as int,
            ),
        },
{
    match find_unencodable(tokens) {
        Some(index) => Err(EncodeError::FixedBytesLength { index }),
        None => Ok(encode_words(tokens)),
    }
}

} // verus!
