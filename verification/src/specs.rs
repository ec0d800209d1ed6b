use vstd::prelude::*;
use vstd::utf8::encode_utf8;
use vstd::utf8::is_ascii_chars;

verus! {

/// Point in time, in seconds.
#[derive(Copy, Clone, PartialEq, Eq, Structural, PartialOrd, Ord, Debug)]
pub struct Timestamp(pub i32);

impl Timestamp {
    pub fn to_inner(self) -> (r: i32)
        ensures
            r == self.0,
    {
        self.0
    }
}

impl Default for Timestamp {
    fn default() -> (r: Timestamp)
        ensures
            r == Timestamp(0),
    {
        Timestamp(0)
    }
}

impl From<i32> for Timestamp {
    fn from(v: i32) -> (r: Timestamp) {
        Timestamp(v)
    }
}

impl vstd::std_specs::convert::FromSpecImpl<i32> for Timestamp {
    open spec fn obeys_from_spec() -> bool {
        true
    }

    open spec fn from_spec(v: i32) -> Timestamp {
        Timestamp(v)
    }
}

/// Number of decimal fraction digits of an asset amount.
#[derive(Copy, Clone, PartialEq, Eq, Structural, PartialOrd, Ord, Debug)]
pub enum Precision {
    Indivisible,
    Deci,
    Centi,
    Milli,
    DeciMilli,
    CentiMilli,
    Micro,
    DeciMicro,
    CentiMicro,
    Nano,
    DeciNano,
    CentiNano,
    Pico,
    DeciPico,
    CentiPico,
    Femto,
    DeciFemto,
    CentiFemto,
    Atto,
}

impl Precision {
    /// The number of decimal fraction digits.
    pub open spec fn digits(self) -> u8 {
        match self {
            Precision::Indivisible => 0,
            Precision::Deci => 1,
            Precision::Centi => 2,
            Precision::Milli => 3,
            Precision::DeciMilli => 4,
            Precision::CentiMilli => 5,
            Precision::Micro => 6,
            Precision::DeciMicro => 7,
            Precision::CentiMicro => 8,
            Precision::Nano => 9,
            Precision::DeciNano => 10,
            Precision::CentiNano => 11,
            Precision::Pico => 12,
            Precision::DeciPico => 13,
            Precision::CentiPico => 14,
            Precision::Femto => 15,
            Precision::DeciFemto => 16,
            Precision::CentiFemto => 17,
            Precision::Atto => 18,
        }
    }

    pub fn to_u8(self) -> (r: u8)
        ensures
            r == self.digits(),
            r <= 18,
    {
        match self {
            Precision::Indivisible => 0,
            Precision::Deci => 1,
            Precision::Centi => 2,
            Precision::Milli => 3,
            Precision::DeciMilli => 4,
            Precision::CentiMilli => 5,
            Precision::Micro => 6,
            Precision::DeciMicro => 7,
            Precision::CentiMicro => 8,
            Precision::Nano => 9,
            Precision::DeciNano => 10,
            Precision::CentiNano => 11,
            Precision::Pico => 12,
            Precision::DeciPico => 13,
            Precision::CentiPico => 14,
            Precision::Femto => 15,
            Precision::DeciFemto => 16,
            Precision::CentiFemto => 17,
            Precision::Atto => 18,
        }
    }

    /// The precision of that many decimal fraction digits, if there is one.
    pub fn try_from_u8(digits: u8) -> (r: Option<Precision>)
        ensures
            match r {
                Some(p) => p.digits() == digits,
                None => digits > 18,
            },
    {
        match digits {
            0 => Some(Precision::Indivisible),
            1 => Some(Precision::Deci),
            2 => Some(Precision::Centi),
            3 => Some(Precision::Milli),
            4 => Some(Precision::DeciMilli),
            5 => Some(Precision::CentiMilli),
            6 => Some(Precision::Micro),
            7 => Some(Precision::DeciMicro),
            8 => Some(Precision::CentiMicro),
            9 => Some(Precision::Nano),
            10 => Some(Precision::DeciNano),
            11 => Some(Precision::CentiNano),
            12 => Some(Precision::Pico),
            13 => Some(Precision::DeciPico),
            14 => Some(Precision::CentiPico),
            15 => Some(Precision::Femto),
            16 => Some(Precision::DeciFemto),
            17 => Some(Precision::CentiFemto),
            18 => Some(Precision::Atto),
            _ => None,
        }
    }
}

impl Default for Precision {
    fn default() -> (r: Precision)
        ensures
            r == Precision::CentiMicro,
    {
        Precision::CentiMicro
    }
}

/// Two precisions of the same number of digits are the same precision.
pub proof fn lemma_precision_digits_injective(a: Precision, b: Precision)
    requires
        a.digits() == b.digits(),
    ensures
        a == b,
{
}

/// A length outside of the bounds that a text must keep.
#[derive(Copy, Clone, PartialEq, Eq, Structural, Hash, Debug)]
pub enum ConfinementError {
    /// The text is shorter than the least length.
    Undersize { len: usize, min_len: usize },
    /// The text is longer than the greatest length.
    Oversize { len: usize, max_len: usize },
}

/// The reasons for which a text is refused as a ticker, a name or details of
/// an asset.
#[derive(Clone, PartialEq, Eq, Debug)]
pub enum InvalidIdent {
    /// The text holds no character.
    Empty,
    /// The text holds the character given, which must not occur in it.
    InvalidChar(String, u8),
    /// The text holds a character outside of ASCII.
    NonAsciiChar,
    /// The text has a length outside of its bounds.
    Confinement(ConfinementError),
}

/// The mathematical view of the reason for which a text is refused.
pub enum IdentFault {
    Empty,
    InvalidChar(Seq<char>, u8),
    NonAsciiChar,
    Confinement(ConfinementError),
}

impl View for InvalidIdent {
    type V = IdentFault;

    open spec fn view(&self) -> IdentFault {
        match self {
            InvalidIdent::Empty => IdentFault::Empty,
            InvalidIdent::InvalidChar(text, c) => IdentFault::InvalidChar(text@, *c),
            InvalidIdent::NonAsciiChar => IdentFault::NonAsciiChar,
            InvalidIdent::Confinement(e) => IdentFault::Confinement(*e),
        }
    }
}

/// The greatest length of a ticker.
pub const TICKER_MAX_LEN: usize = 8;

/// The greatest length of the name of an asset.
pub const NAME_MAX_LEN: usize = 40;

/// The greatest length, in bytes, of the details of an asset.
pub const DETAILS_MAX_LEN: usize = 255;

/// The greatest length, in bytes, of the text of a contract.
pub const CONTRACT_MAX_LEN: usize = 0xFFFF;

/// How a length fails to lie within its bounds, if it does.
pub open spec fn confinement_fault(len: nat, min_len: nat, max_len: nat) -> Option<
    ConfinementError,
> {
    if len < min_len {
        Some(ConfinementError::Undersize { len: len as usize, min_len: min_len as usize })
    } else if len > max_len {
        Some(ConfinementError::Oversize { len: len as usize, max_len: max_len as usize })
    } else {
        None
    }
}

/// Whether the character is an upper-case letter of ASCII.
pub open spec fn is_upper(c: char) -> bool {
    'A' <= c <= 'Z'
}

/// The place of the first character that is no upper-case letter of ASCII,
/// if there is one.
pub open spec fn first_not_upper(text: Seq<char>) -> Option<int>
    decreases text.len(),
{
    if text.len() == 0 {
        None
    } else {
        match first_not_upper(text.drop_last()) {
            Some(i) => Some(i),
            None => if is_upper(text.last()) {
                None
            } else {
                Some(text.len() - 1)
            },
        }
    }
}

/// What the beginning of a text holds first that is no upper-case letter,
/// the whole text holds first.
pub proof fn lemma_first_not_upper_extends(text: Seq<char>, n: int)
    requires
        0 <= n <= text.len(),
        first_not_upper(text.take(n)) is Some,
    ensures
        first_not_upper(text) == first_not_upper(text.take(n)),
    decreases text.len() - n,
{
    if n == text.len() {
        assert(text.take(n) =~= text);
    } else {
        assert(text.take(n + 1).drop_last() =~= text.take(n));
        lemma_first_not_upper_extends(text, n + 1);
    }
}

/// Why a text is refused as a ticker, if it is: a ticker is made of one to
/// eight upper-case letters of ASCII.
pub open spec fn ticker_fault(text: Seq<char>) -> Option<IdentFault> {
    if !is_ascii_chars(text) {
        Some(IdentFault::NonAsciiChar)
    } else if text.len() == 0 {
        Some(IdentFault::Empty)
    } else {
        match first_not_upper(text) {
            Some(i) => Some(IdentFault::InvalidChar(text, text[i] as u8)),
            None => match confinement_fault(text.len(), 1, TICKER_MAX_LEN as nat) {
                Some(e) => Some(IdentFault::Confinement(e)),
                None => None,
            },
        }
    }
}

/// Why a text is refused as the name of an asset, if it is: a name is made
/// of one to forty characters of ASCII.
pub open spec fn name_fault(text: Seq<char>) -> Option<IdentFault> {
    if !is_ascii_chars(text) {
        Some(IdentFault::NonAsciiChar)
    } else {
        match confinement_fault(text.len(), 1, NAME_MAX_LEN as nat) {
            Some(e) => Some(IdentFault::Confinement(e)),
            None => None,
        }
    }
}

/// Why a text is refused as the details of an asset, if it is: details take
/// from one to 255 bytes.
pub open spec fn details_fault(text: Seq<char>) -> Option<IdentFault> {
    match confinement_fault(encode_utf8(text).len(), 1, DETAILS_MAX_LEN as nat) {
        Some(e) => Some(IdentFault::Confinement(e)),
        None => None,
    }
}

fn byte_len(s: &str) -> (n: usize)
    ensures
        n == encode_utf8(s@).len(),
        is_ascii_chars(s@) ==> n == s@.len(),
{
    proof {
        if is_ascii_chars(s@) {
            vstd::utf8::is_ascii_chars_encode_utf8(s@);
        }
    }
    s.as_bytes().len()
}

fn check_length(len: usize, min_len: usize, max_len: usize) -> (r: Option<ConfinementError>)
    ensures
        r == confinement_fault(len as nat, min_len as nat, max_len as nat),
{
    if len < min_len {
        Some(ConfinementError::Undersize { len, min_len })
    } else if len > max_len {
        Some(ConfinementError::Oversize { len, max_len })
    } else {
        None
    }
}

/// The short name under which an asset is traded.
#[derive(PartialEq, Eq, PartialOrd, Ord, Hash, Debug)]
pub struct Ticker {
    text: String,
}

impl Clone for Ticker {
    fn clone(&self) -> (r: Ticker)
        ensures
            r@ == self@,
    {
        proof {
            use_type_invariant(self);
        }
        Ticker { text: self.text.clone() }
    }
}

impl View for Ticker {
    type V = Seq<char>;

    closed spec fn view(&self) -> Seq<char> {
        self.text@
    }
}

impl Ticker {
    #[verifier::type_invariant]
    spec fn valid(self) -> bool {
        ticker_fault(self.text@) is None
    }

    /// Takes a text as a ticker, or tells why it is none.
    pub fn from_str(s: &str) -> (r: Result<Ticker, InvalidIdent>)
        ensures
            match r {
                Ok(ticker) => ticker_fault(s@) is None && ticker@ == s@,
                Err(e) => ticker_fault(s@) == Some(e@),
            },
    {
        broadcast use vstd::string::is_ascii_spec_bytes;

        if !s.is_ascii() {
            return Err(InvalidIdent::NonAsciiChar);
        }
        let n = byte_len(s);
        if n == 0 {
            return Err(InvalidIdent::Empty);
        }
        let mut i: usize = 0;
        while i < n
            invariant
                i <= n,
                n == s@.len(),
                is_ascii_chars(s@),
                first_not_upper(s@.take(i as int)) is None,
            decreases n - i,
        {
            let b = s.get_ascii(i);
            proof {
                assert(s@.take(i as int + 1).drop_last() =~= s@.take(i as int));
                assert(s@.take(i as int + 1).last() == s@[i as int]);
            }
            if b < 0x41 || b > 0x5A {
                proof {
                    assert(first_not_upper(s@.take(i as int + 1)) == Some(i as int));
                    lemma_first_not_upper_extends(s@, i as int + 1);
                }
                return Err(InvalidIdent::InvalidChar(s.to_owned(), b));
            }
            i += 1;
        }
        proof {
            assert(s@.take(n as int) =~= s@);
        }
        match check_length(n, 1, TICKER_MAX_LEN) {
            Some(e) => Err(InvalidIdent::Confinement(e)),
            None => Ok(Ticker { text: s.to_owned() }),
        }
    }

    /// Takes a text as a ticker, or tells why it is none.
    pub fn try_from(s: String) -> (r: Result<Ticker, InvalidIdent>)
        ensures
            match r {
                Ok(ticker) => ticker_fault(s@) is None && ticker@ == s@,
                Err(e) => ticker_fault(s@) == Some(e@),
            },
    {
        Ticker::from_str(s.as_str())
    }

    /// Takes a text that is known to be a ticker as one.
    pub fn from(s: &str) -> (r: Ticker)
        requires
            ticker_fault(s@) is None,
        ensures
            r@ == s@,
    {
        match Ticker::from_str(s) {
            Ok(ticker) => ticker,
            Err(_) => vstd::pervasive::unreached(),
        }
    }

    pub fn as_str(&self) -> (r: &str)
        ensures
            r@ == self@,
            ticker_fault(r@) is None,
    {
        proof {
            use_type_invariant(self);
        }
        self.text.as_str()
    }
}

/// The name of an asset.
#[derive(PartialEq, Eq, PartialOrd, Ord, Hash, Debug)]
pub struct Name {
    text: String,
}

impl Clone for Name {
    fn clone(&self) -> (r: Name)
        ensures
            r@ == self@,
    {
        proof {
            use_type_invariant(self);
        }
        Name { text: self.text.clone() }
    }
}

impl View for Name {
    type V = Seq<char>;

    closed spec fn view(&self) -> Seq<char> {
        self.text@
    }
}

impl Name {
    #[verifier::type_invariant]
    spec fn valid(self) -> bool {
        name_fault(self.text@) is None
    }

    /// Takes a text as the name of an asset, or tells why it is none.
    pub fn from_str(s: &str) -> (r: Result<Name, InvalidIdent>)
        ensures
            match r {
                Ok(name) => name_fault(s@) is None && name@ == s@,
                Err(e) => name_fault(s@) == Some(e@),
            },
    {
        broadcast use vstd::string::is_ascii_spec_bytes;

        if !s.is_ascii() {
            return Err(InvalidIdent::NonAsciiChar);
        }
        match check_length(byte_len(s), 1, NAME_MAX_LEN) {
            Some(e) => Err(InvalidIdent::Confinement(e)),
            None => Ok(Name { text: s.to_owned() }),
        }
    }

    /// Takes a text as the name of an asset, or tells why it is none.
    pub fn try_from(s: String) -> (r: Result<Name, InvalidIdent>)
        ensures
            match r {
                Ok(name) => name_fault(s@) is None && name@ == s@,
                Err(e) => name_fault(s@) == Some(e@),
            },
    {
        Name::from_str(s.as_str())
    }

    /// Takes a text that is known to be the name of an asset as one.
    pub fn from(s: &str) -> (r: Name)
        requires
            name_fault(s@) is None,
        ensures
            r@ == s@,
    {
        match Name::from_str(s) {
            Ok(name) => name,
            Err(_) => vstd::pervasive::unreached(),
        }
    }

    pub fn as_str(&self) -> (r: &str)
        ensures
            r@ == self@,
            name_fault(r@) is None,
    {
        proof {
            use_type_invariant(self);
        }
        self.text.as_str()
    }
}

/// What more there is to say of an asset.
#[derive(PartialEq, Eq, PartialOrd, Ord, Hash, Debug)]
pub struct Details {
    text: String,
}

impl Clone for Details {
    fn clone(&self) -> (r: Details)
        ensures
            r@ == self@,
    {
        proof {
            use_type_invariant(self);
        }
        Details { text: self.text.clone() }
    }
}

impl View for Details {
    type V = Seq<char>;

    closed spec fn view(&self) -> Seq<char> {
        self.text@
    }
}

impl Details {
    #[verifier::type_invariant]
    spec fn valid(self) -> bool {
        details_fault(self.text@) is None
    }

    /// Takes a text as the details of an asset, or tells why it is none.
    pub fn from_str(s: &str) -> (r: Result<Details, InvalidIdent>)
        ensures
            match r {
                Ok(details) => details_fault(s@) is None && details@ == s@,
                Err(e) => details_fault(s@) == Some(e@),
            },
    {
        match check_length(byte_len(s), 1, DETAILS_MAX_LEN) {
            Some(e) => Err(InvalidIdent::Confinement(e)),
            None => Ok(Details { text: s.to_owned() }),
        }
    }

    /// Takes a text as the details of an asset, or tells why it is none.
    pub fn try_from(s: String) -> (r: Result<Details, InvalidIdent>)
        ensures
            match r {
                Ok(details) => details_fault(s@) is None && details@ == s@,
                Err(e) => details_fault(s@) == Some(e@),
            },
    {
        Details::from_str(s.as_str())
    }

    /// Takes a text that is known to be the details of an asset as such.
    pub fn from(s: &str) -> (r: Details)
        requires
            details_fault(s@) is None,
        ensures
            r@ == s@,
    {
        match Details::from_str(s) {
            Ok(details) => details,
            Err(_) => vstd::pervasive::unreached(),
        }
    }

    pub fn as_str(&self) -> (r: &str)
        ensures
            r@ == self@,
            details_fault(r@) is None,
    {
        proof {
            use_type_invariant(self);
        }
        self.text.as_str()
    }
}

/// How an asset is called.
#[derive(Clone, PartialEq, Eq, Debug)]
pub struct AssetNaming {
    pub ticker: Ticker,
    pub name: Name,
    pub details: Option<Details>,
}

/// Why a text is refused as the text of a contract, if it is: the text of a
/// contract takes no more than 65535 bytes.
pub open spec fn contract_fault(text: Seq<char>) -> Option<IdentFault> {
    match confinement_fault(encode_utf8(text).len(), 0, CONTRACT_MAX_LEN as nat) {
        Some(e) => Some(IdentFault::Confinement(e)),
        None => None,
    }
}

/// Why the texts are refused as the naming of an asset, if they are: the
/// fault of the ticker, else that of the name, else that of the details.
pub open spec fn naming_fault(ticker: Seq<char>, name: Seq<char>, details: Option<Seq<char>>)
    -> Option<IdentFault> {
    if ticker_fault(ticker) is Some {
        ticker_fault(ticker)
    } else if name_fault(name) is Some {
        name_fault(name)
    } else {
        match details {
            Some(text) => details_fault(text),
            None => None,
        }
    }
}

/// The views of an optional text.
pub open spec fn optional_text(text: Option<&str>) -> Option<Seq<char>> {
    match text {
        Some(s) => Some(s@),
        None => None,
    }
}

/// The views of optional details.
pub open spec fn optional_details(details: Option<Details>) -> Option<Seq<char>> {
    match details {
        Some(d) => Some(d@),
        None => None,
    }
}

impl AssetNaming {
    /// The naming of an asset by a ticker and a name that are known to be
    /// such, without details.
    pub fn new(ticker: &str, name: &str) -> (r: AssetNaming)
        requires
            ticker_fault(ticker@) is None,
            name_fault(name@) is None,
        ensures
            r.ticker@ == ticker@,
            r.name@ == name@,
            r.details is None,
    {
        AssetNaming { ticker: Ticker::from(ticker), name: Name::from(name), details: None }
    }

    /// The naming of an asset by the texts given, or why they are refused.
    pub fn with(ticker: &str, name: &str, details: Option<&str>) -> (r: Result<
        AssetNaming,
        InvalidIdent,
    >)
        ensures
            match r {
                Ok(naming) => naming_fault(ticker@, name@, optional_text(details)) is None
                    && naming.ticker@ == ticker@ && naming.name@ == name@ && optional_details(
                    naming.details,
                ) == optional_text(details),
                Err(e) => naming_fault(ticker@, name@, optional_text(details)) == Some(e@),
            },
    {
        let ticker = match Ticker::from_str(ticker) {
            Ok(t) => t,
            Err(e) => {
                return Err(e);
            },
        };
        let name = match Name::from_str(name) {
            Ok(n) => n,
            Err(e) => {
                return Err(e);
            },
        };
        let details = match details {
            Some(text) => match Details::from_str(text) {
                Ok(d) => Some(d),
                Err(e) => {
                    return Err(e);
                },
            },
            None => None,
        };
        Ok(AssetNaming { ticker, name, details })
    }
}

/// What an asset that can be divided is: how it is called, and into how
/// small parts it divides.
#[derive(Clone, PartialEq, Eq, Debug)]
pub struct DivisibleAssetSpec {
    pub naming: AssetNaming,
    pub precision: Precision,
}

impl DivisibleAssetSpec {
    /// The specification of an asset by a ticker and a name that are known
    /// to be such, without details.
    pub fn new(ticker: &str, name: &str, precision: Precision) -> (r: DivisibleAssetSpec)
        requires
            ticker_fault(ticker@) is None,
            name_fault(name@) is None,
        ensures
            r.naming.ticker@ == ticker@,
            r.naming.name@ == name@,
            r.naming.details is None,
            r.precision == precision,
    {
        DivisibleAssetSpec { naming: AssetNaming::new(ticker, name), precision }
    }

    /// The specification of an asset by the texts given, or why they are
    /// refused.
    pub fn with(ticker: &str, name: &str, precision: Precision, details: Option<&str>) -> (r:
        Result<DivisibleAssetSpec, InvalidIdent>)
        ensures
            match r {
                Ok(spec) => naming_fault(ticker@, name@, optional_text(details)) is None
                    && spec.naming.ticker@ == ticker@ && spec.naming.name@ == name@
                    && optional_details(spec.naming.details) == optional_text(details)
                    && spec.precision == precision,
                Err(e) => naming_fault(ticker@, name@, optional_text(details)) == Some(e@),
            },
    {
        match AssetNaming::with(ticker, name, details) {
            Ok(naming) => Ok(DivisibleAssetSpec { naming, precision }),
            Err(e) => Err(e),
        }
    }
}

/// The text of the contract under which an asset is issued.
#[derive(PartialEq, Eq, Debug)]
pub struct RicardianContract {
    text: String,
}

impl Clone for RicardianContract {
    fn clone(&self) -> (r: RicardianContract)
        ensures
            r@ == self@,
    {
        proof {
            use_type_invariant(self);
        }
        RicardianContract { text: self.text.clone() }
    }
}

impl View for RicardianContract {
    type V = Seq<char>;

    closed spec fn view(&self) -> Seq<char> {
        self.text@
    }
}

impl Default for RicardianContract {
    fn default() -> (r: RicardianContract)
        ensures
            r@ == Seq::<char>::empty(),
    {
        proof {
            assert(encode_utf8(Seq::<char>::empty()).len() == 0);
        }
        RicardianContract { text: String::new() }
    }
}

impl RicardianContract {
    #[verifier::type_invariant]
    spec fn valid(self) -> bool {
        encode_utf8(self.text@).len() <= CONTRACT_MAX_LEN
    }

    /// Whether the text is short enough for the text of a contract.
    pub fn fits(description: &str) -> (r: bool)
        ensures
            r == (encode_utf8(description@).len() <= CONTRACT_MAX_LEN),
    {
        byte_len(description) <= CONTRACT_MAX_LEN
    }

    /// Takes a text as the text of a contract, or tells why it is none.
    pub fn from_str(s: &str) -> (r: Result<RicardianContract, InvalidIdent>)
        ensures
            match r {
                Ok(contract) => contract_fault(s@) is None && contract@ == s@,
                Err(e) => contract_fault(s@) == Some(e@),
            },
    {
        match check_length(byte_len(s), 0, CONTRACT_MAX_LEN) {
            Some(e) => Err(InvalidIdent::Confinement(e)),
            None => Ok(RicardianContract { text: s.to_owned() }),
        }
    }

    /// Takes a text as the text of a contract. The text must take no more
    /// than `CONTRACT_MAX_LEN` bytes.
    pub fn new(description: &str) -> (r: RicardianContract)
        requires
            encode_utf8(description@).len() <= CONTRACT_MAX_LEN,
        ensures
            r@ == description@,
    {
        RicardianContract { text: description.to_owned() }
    }

    /// Takes a text as the text of a contract. The text must take no more
    /// than `CONTRACT_MAX_LEN` bytes.
    pub fn with(description: &str) -> (r: Result<RicardianContract, InvalidIdent>)
        requires
            encode_utf8(description@).len() <= CONTRACT_MAX_LEN,
        ensures
            r matches Ok(contract) && contract@ == description@,
    {
        Ok(RicardianContract::new(description))
    }

    pub fn as_str(&self) -> (r: &str)
        ensures
            r@ == self@,
            encode_utf8(r@).len() <= CONTRACT_MAX_LEN,
    {
        proof {
            use_type_invariant(self);
        }
        self.text.as_str()
    }
}

} // verus!
