//! Account addresses and module identifiers.
use crate::encoding::{hex_bytes, hex_decode_32, hex_encode, hex_text, is_hex,
    is_hex_char, law_hex_round_trip};
use crate::text::{chars_of, join2, join3, starts_with, starts_with_text, text_range};
use vstd::prelude::*;

verus! {

/// The address of an account: thirty-two bytes.
#[derive(Debug, Clone, Copy, PartialEq, Eq)]
pub struct AccountAddress {
    pub bytes: [u8; 32],
}

impl View for AccountAddress {
    type V = Seq<u8>;

    open spec fn view(&self) -> Seq<u8> {
        self.bytes@
    }
}

/// `count` zero digits.
pub open spec fn zeros(count: nat) -> Seq<char> {
    Seq::new(count, |i: int| '0')
}

/// Digits filled up to sixty-four with leading zeros.
pub open spec fn padded(digits: Seq<char>) -> Seq<char> {
    if digits.len() < 64 {
        zeros((64 - digits.len()) as nat) + digits
    } else {
        digits
    }
}

/// A text without its leading zeros.
pub open spec fn trim_zeros(text: Seq<char>) -> Seq<char>
    decreases text.len(),
{
    if text.len() > 0 && text[0] == '0' {
        trim_zeros(text.drop_first())
    } else {
        text
    }
}

/// The digits of a short literal: at least one, without leading zeros.
pub open spec fn short_digits(text: Seq<char>) -> Seq<char> {
    if trim_zeros(text).len() == 0 {
        seq!['0']
    } else {
        trim_zeros(text)
    }
}

/// The short literal of an address: `0x` and its digits without leading zeros.
pub open spec fn hex_literal(address: Seq<u8>) -> Seq<char> {
    "0x"@ + short_digits(hex_text(address))
}

/// The address that a text names: `0x` and up to sixty-four hexadecimal digits,
/// or exactly sixty-four digits without the prefix.
pub open spec fn address_of(text: Seq<char>) -> Option<Seq<u8>> {
    if starts_with(text, "0x"@) && is_hex(padded(text.skip(2)), 32) {
        Some(hex_bytes(padded(text.skip(2)), 32))
    } else if is_hex(text, 32) {
        Some(hex_bytes(text, 32))
    } else {
        None
    }
}

/// The message for a text that is no address.
pub open spec fn unreadable_address() -> Seq<char> {
    "unable to parse AccoutAddress"@
}

/// `move_core_types::account_address::AccountAddressParseError` displays one
/// text, whatever could not be read.
#[verifier::external_body]
fn address_error() -> (text: String)
    ensures
        text@ == unreadable_address(),
{
    move_core_types::account_address::AccountAddressParseError.to_string()
}

/// Removing leading zeros and filling up again changes nothing.
proof fn lemma_pad_trim(text: Seq<char>, total: nat)
    requires
        text.len() <= total,
    ensures
        trim_zeros(text).len() <= text.len(),
        zeros((total - trim_zeros(text).len()) as nat) + trim_zeros(text) == zeros(
            (total - text.len()) as nat,
        ) + text,
    decreases text.len(),
{
    if text.len() > 0 && text[0] == '0' {
        let rest = text.drop_first();
        lemma_pad_trim(rest, total);
        assert(zeros((total - rest.len()) as nat) + rest =~= zeros((total - text.len()) as nat) + text);
    }
}

/// An address is read back from its short literal.
pub proof fn law_literal_round_trip(address: Seq<u8>)
    requires
        address.len() == 32,
    ensures
        address_of(hex_literal(address)) == Some(address),
{
    reveal_strlit("0x");
    let text = hex_text(address);
    let literal = hex_literal(address);
    law_hex_round_trip(address);
    lemma_pad_trim(text, 64);
    assert(literal.subrange(0, 2) =~= "0x"@);
    assert(literal.skip(2) =~= short_digits(text));
    assert(zeros(0) + text =~= text);
    if trim_zeros(text).len() == 0 {
        assert(zeros(64) + trim_zeros(text) =~= text);
        assert(padded(seq!['0']) =~= text);
    } else {
        assert(padded(short_digits(text)) =~= text);
    }
}

/// An address is read back from `0x` and its sixty-four digits.
pub proof fn law_long_form_round_trip(address: Seq<u8>)
    requires
        address.len() == 32,
    ensures
        address_of("0x"@ + hex_text(address)) == Some(address),
        address_of(hex_text(address)) == Some(address),
{
    reveal_strlit("0x");
    let text = hex_text(address);
    law_hex_round_trip(address);
    assert(("0x"@ + text).subrange(0, 2) =~= "0x"@);
    assert(("0x"@ + text).skip(2) =~= text);
    if starts_with(text, "0x"@) {
        assert(text.subrange(0, 2)[1] == 'x');
        assert(is_hex_char(text[1]));
    }
}

impl AccountAddress {
    /// The address from bytes.
    pub fn new(bytes: [u8; 32]) -> (res: Self)
        ensures
            res@ == bytes@,
    {
        AccountAddress { bytes }
    }

    /// Reads an address from `0x` and up to sixty-four hexadecimal digits, or
    /// from exactly sixty-four digits.
    pub fn from_text(text: &str) -> (res: Result<AccountAddress, String>)
        ensures
            match res {
                Ok(a) => address_of(text@) == Some(a@),
                Err(e) => address_of(text@) is None && e@ == unreadable_address(),
            },
    {
        if starts_with_text(text, "0x") {
            let chars = chars_of(text);
            proof {
                reveal_strlit("0x");
            }
            let digits: usize = chars.len() - 2;
            let mut filled = String::new();
            let mut i: usize = digits;
            while i < 64
                invariant
                    digits <= i,
                    digits <= 64 ==> i <= 64,
                    digits > 64 ==> i == digits,
                    filled@ == zeros((i - digits) as nat),
                decreases 64 - i,
            {
                filled.push('0');
                assert(zeros((i + 1 - digits) as nat) =~= zeros((i - digits) as nat).push('0'));
                i += 1;
            }
            let tail = text_range(&chars, 2, chars.len());
            assert(tail@ =~= text@.skip(2));
            filled.append(tail.as_str());
            assert(filled@ =~= padded(text@.skip(2)));
            if let Some(bytes) = hex_decode_32(filled.as_str()) {
                return Ok(AccountAddress { bytes });
            }
        }
        match hex_decode_32(text) {
            Some(bytes) => Ok(AccountAddress { bytes }),
            None => Err(address_error()),
        }
    }

    /// The short literal: `0x` and the digits without leading zeros.
    pub fn to_hex_literal(&self) -> (res: String)
        ensures
            res@ == hex_literal(self@),
    {
        let digits = chars_of(hex_encode(&self.bytes).as_str());
        let ghost text = digits@;
        let mut from: usize = 0;
        assert(text.skip(0) =~= text);
        while from < digits.len() && digits[from] == '0'
            invariant
                from <= digits@.len(),
                text == digits@,
                trim_zeros(text) == trim_zeros(text.skip(from as int)),
            decreases digits@.len() - from,
        {
            assert(text.skip(from as int).drop_first() =~= text.skip(from + 1));
            from += 1;
        }
        assert(trim_zeros(text) == text.skip(from as int));
        if from == digits.len() {
            let res = join2("0x", "0");
            proof {
                reveal_strlit("0");
            }
            assert("0"@ =~= seq!['0']);
            res
        } else {
            let short = text_range(&digits, from, digits.len());
            assert(short@ =~= text.skip(from as int));
            join2("0x", short.as_str())
        }
    }

    /// `0x` and all sixty-four digits.
    pub fn to_long_text(&self) -> (res: String)
        ensures
            res@ == "0x"@ + hex_text(self@),
    {
        join2("0x", hex_encode(&self.bytes).as_str())
    }
}

/// A module: the account that published it and its name.
#[derive(Debug, PartialEq, Eq)]
pub struct ModuleId {
    pub address: AccountAddress,
    pub name: String,
}

/// The mathematical counterpart of [`ModuleId`].
pub struct ModuleIdView {
    pub address: Seq<u8>,
    pub name: Seq<char>,
}

impl View for ModuleId {
    type V = ModuleIdView;

    open spec fn view(&self) -> ModuleIdView {
        ModuleIdView { address: self.address@, name: self.name@ }
    }
}

/// `address::name`, with the address as a short literal.
pub open spec fn module_text(id: ModuleIdView) -> Seq<char> {
    hex_literal(id.address) + "::"@ + id.name
}

/// What is left of a hexadecimal text holds hexadecimal digits only.
proof fn lemma_trim_keeps_digits(text: Seq<char>)
    requires
        forall|i: int| 0 <= i < text.len() ==> is_hex_char(#[trigger] text[i]),
    ensures
        forall|i: int| 0 <= i < trim_zeros(text).len() ==> is_hex_char(#[trigger] trim_zeros(text)[i]),
    decreases text.len(),
{
    if text.len() > 0 && text[0] == '0' {
        let rest = text.drop_first();
        assert forall|i: int| 0 <= i < rest.len() implies is_hex_char(#[trigger] rest[i]) by {
            assert(is_hex_char(text[i + 1]));
        }
        lemma_trim_keeps_digits(rest);
        assert(trim_zeros(text) == trim_zeros(rest));
    } else {
        assert(trim_zeros(text) == text);
    }
}

/// A literal holds no colon.
proof fn lemma_literal_without_colon(address: Seq<u8>)
    ensures
        forall|i: int| 0 <= i < hex_literal(address).len() ==> #[trigger] hex_literal(address)[i] != ':',
{
    reveal_strlit("0x");
    law_hex_round_trip(address);
    lemma_trim_keeps_digits(hex_text(address));
    let digits = short_digits(hex_text(address));
    assert forall|i: int| 0 <= i < hex_literal(address).len() implies #[trigger] hex_literal(
        address,
    )[i] != ':' by {
        if i >= 2 {
            assert(hex_literal(address)[i] == digits[i - 2]);
            if trim_zeros(hex_text(address)).len() > 0 {
                assert(is_hex_char(digits[i - 2]));
            }
        }
    }
}

/// Two different modules have different texts.
pub proof fn law_module_text_injective(a: ModuleIdView, b: ModuleIdView)
    requires
        a.address.len() == 32,
        b.address.len() == 32,
        module_text(a) == module_text(b),
    ensures
        a == b,
{
    reveal_strlit("::");
    let text = module_text(a);
    let x = hex_literal(a.address);
    let y = hex_literal(b.address);
    lemma_literal_without_colon(a.address);
    lemma_literal_without_colon(b.address);
    assert(text[x.len() as int] == ':');
    assert(text[y.len() as int] == ':');
    if x.len() < y.len() {
        assert(text[x.len() as int] == y[x.len() as int]);
    }
    if y.len() < x.len() {
        assert(text[y.len() as int] == x[y.len() as int]);
    }
    assert(x =~= text.subrange(0, x.len() as int));
    assert(y =~= text.subrange(0, y.len() as int));
    law_literal_round_trip(a.address);
    law_literal_round_trip(b.address);
    assert(a.name =~= text.skip(x.len() as int + 2));
    assert(b.name =~= text.skip(y.len() as int + 2));
}

impl ModuleId {
    /// A module of an account.
    pub fn new(address: AccountAddress, name: String) -> (res: Self)
        ensures
            res@ == (ModuleIdView { address: address@, name: name@ }),
    {
        ModuleId { address, name }
    }

    /// A copy.
    pub fn copy(&self) -> (res: Self)
        ensures
            res@ == self@,
    {
        ModuleId { address: self.address, name: self.name.clone() }
    }
}

/// The text of a module identifier.
pub fn format_module_id(id: &ModuleId) -> (res: String)
    ensures
        res@ == module_text(id@),
{
    let address = id.address.to_hex_literal();
    join3(address.as_str(), "::", id.name.as_str())
}

} // verus!
