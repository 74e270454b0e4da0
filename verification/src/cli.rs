//! The command-line client's argument values: the enums that map onto on-chain settings, and the
//! `util,rate` rate-curve points with their parser.
use vstd::prelude::*;
use crate::profile::GlobalOptions;

verus! {

/// The top-level command groups of the client.
#[derive(Clone, Copy, Debug, PartialEq, Eq, Structural)]
pub enum Command {
    /// Manage marginfi groups (create, configure, add banks, fees).
    Group,
    /// Manage banks (get info, configure, oracle, fees).
    Bank,
    /// Manage client profiles (create, switch, update).
    Profile,
    /// Manage marginfi accounts (deposit, withdraw, borrow, repay, orders).
    Account,
    /// Integration commands (Kamino, Drift, JupLend).
    Integration,
    /// Debug and utility commands.
    Util,
}

/// The client's top-level options: the global overrides and the command group.
#[derive(Clone, Copy, Debug)]
pub struct Opts {
    pub cfg_override: GlobalOptions,
    pub command: Command,
}

/// Which trigger an order gets.
#[derive(Clone, Copy, Debug, PartialEq, Eq, Structural)]
pub enum OrderTriggerTypeArg {
    StopLoss,
    TakeProfit,
    Both,
}

/// A bank's operational state, on chain.
#[derive(Clone, Copy, Debug, PartialEq, Eq, Structural)]
pub enum BankOperationalState {
    Paused,
    Operational,
    ReduceOnly,
}

/// A bank's operational state, as given on the command line.
#[derive(Clone, Copy, Debug, PartialEq, Eq, Structural)]
pub enum BankOperationalStateArg {
    Paused,
    Operational,
    ReduceOnly,
}

impl From<BankOperationalStateArg> for BankOperationalState {
    fn from(val: BankOperationalStateArg) -> (r: Self) {
        match val {
            BankOperationalStateArg::Paused => BankOperationalState::Paused,
            BankOperationalStateArg::Operational => BankOperationalState::Operational,
            BankOperationalStateArg::ReduceOnly => BankOperationalState::ReduceOnly,
        }
    }
}

impl vstd::std_specs::convert::FromSpecImpl<BankOperationalStateArg> for BankOperationalState {
    open spec fn obeys_from_spec() -> bool {
        true
    }

    open spec fn from_spec(val: BankOperationalStateArg) -> BankOperationalState {
        match val {
            BankOperationalStateArg::Paused => BankOperationalState::Paused,
            BankOperationalStateArg::Operational => BankOperationalState::Operational,
            BankOperationalStateArg::ReduceOnly => BankOperationalState::ReduceOnly,
        }
    }
}

/// A bank's risk tier, on chain.
#[derive(Clone, Copy, Debug, PartialEq, Eq, Structural)]
pub enum RiskTier {
    Collateral,
    Isolated,
}

/// A bank's risk tier, as given on the command line.
#[derive(Clone, Copy, Debug, PartialEq, Eq, Structural)]
pub enum RiskTierArg {
    Collateral,
    Isolated,
}

impl From<RiskTierArg> for RiskTier {
    fn from(value: RiskTierArg) -> (r: Self) {
        match value {
            RiskTierArg::Collateral => RiskTier::Collateral,
            RiskTierArg::Isolated => RiskTier::Isolated,
        }
    }
}

impl vstd::std_specs::convert::FromSpecImpl<RiskTierArg> for RiskTier {
    open spec fn obeys_from_spec() -> bool {
        true
    }

    open spec fn from_spec(value: RiskTierArg) -> RiskTier {
        match value {
            RiskTierArg::Collateral => RiskTier::Collateral,
            RiskTierArg::Isolated => RiskTier::Isolated,
        }
    }
}

/// A kink of an interest-rate curve, on chain: utilization as a fraction of `u32::MAX` of 100%,
/// rate as a fraction of `u32::MAX` of 1000%.
#[derive(Clone, Copy, Debug, PartialEq, Eq, Structural)]
pub struct RatePoint {
    pub util: u32,
    pub rate: u32,
}

/// A kink of an interest-rate curve, as given on the command line (`util,rate`).
#[derive(Clone, Copy, Debug, PartialEq, Eq, Structural)]
pub struct RatePointArg {
    pub util: u32,
    pub rate: u32,
}

/// A kink of an interest-rate curve, as written in a JSON config file.
#[derive(Clone, Copy, Debug, PartialEq, Eq, Structural)]
pub struct RatePointConfig {
    pub util: u32,
    pub rate: u32,
}

impl From<RatePointArg> for RatePoint {
    fn from(p: RatePointArg) -> (r: Self) {
        RatePoint { util: p.util, rate: p.rate }
    }
}

impl vstd::std_specs::convert::FromSpecImpl<RatePointArg> for RatePoint {
    open spec fn obeys_from_spec() -> bool {
        true
    }

    open spec fn from_spec(p: RatePointArg) -> RatePoint {
        RatePoint { util: p.util, rate: p.rate }
    }
}

/// The oracle age, in seconds, that a bank config gets when its JSON leaves it out.
pub fn default_oracle_max_age() -> (r: u16)
    ensures
        r == 60,
{
    60
}

/// Why a decimal `u32` could not be read (the kinds of std's `ParseIntError` that can occur).
#[derive(Clone, Copy, Debug, PartialEq, Eq, Structural)]
pub enum IntErrorKind {
    /// Nothing to read.
    Empty,
    /// A character that is not a decimal digit (or a lone sign).
    InvalidDigit,
    /// The number does not fit in a `u32`.
    PosOverflow,
}

/// Why a `util,rate` argument could not be read.
#[derive(Clone, Copy, Debug, PartialEq, Eq, Structural)]
pub enum RatePointParseError {
    /// There is no comma.
    MissingSeparator,
    /// The part before the comma is not a `u32`.
    InvalidUtil(IntErrorKind),
    /// The part after the comma is not a `u32`.
    InvalidRate(IntErrorKind),
}

/// Whether `c` has Unicode's `White_Space` property (the characters `char::is_whitespace`
/// accepts): tab to carriage return, space, next line, no-break space, Ogham space mark, the
/// en quad to hair space block, line and paragraph separators, narrow no-break space, medium
/// mathematical space and ideographic space.
pub open spec fn is_white_space(c: char) -> bool {
    let v = c as u32;
    (0x09 <= v <= 0x0D) || v == 0x20 || v == 0x85 || v == 0xA0 || v == 0x1680 || (0x2000 <= v
        <= 0x200A) || v == 0x2028 || v == 0x2029 || v == 0x202F || v == 0x205F || v == 0x3000
}

/// Whether `c` is white space; see [`is_white_space`].
pub fn char_is_whitespace(c: char) -> (r: bool)
    ensures
        r == is_white_space(c),
{
    let v = c as u32;
    (0x09 <= v && v <= 0x0D) || v == 0x20 || v == 0x85 || v == 0xA0 || v == 0x1680 || (0x2000 <= v
        && v <= 0x200A) || v == 0x2028 || v == 0x2029 || v == 0x202F || v == 0x205F || v == 0x3000
}

/// `s` without its leading white space.
pub open spec fn trim_start(s: Seq<char>) -> Seq<char>
    decreases s.len(),
{
    if s.len() > 0 && is_white_space(s[0]) {
        trim_start(s.drop_first())
    } else {
        s
    }
}

/// `s` without its trailing white space.
pub open spec fn trim_end(s: Seq<char>) -> Seq<char>
    decreases s.len(),
{
    if s.len() > 0 && is_white_space(s.last()) {
        trim_end(s.drop_last())
    } else {
        s
    }
}

/// `s` without white space at either end (`str::trim`).
pub open spec fn trim(s: Seq<char>) -> Seq<char> {
    trim_end(trim_start(s))
}

pub open spec fn is_digit(c: char) -> bool {
    '0' <= c && c <= '9'
}

pub open spec fn digit_value(c: char) -> int {
    (c as int) - ('0' as int)
}

/// Reading the decimal digits of `s` after the value `acc` read so far.
pub open spec fn parse_digits(s: Seq<char>, acc: int) -> Result<u32, IntErrorKind>
    decreases s.len(),
{
    if s.len() == 0 {
        Ok(acc as u32)
    } else if !is_digit(s[0]) {
        Err(IntErrorKind::InvalidDigit)
    } else if acc * 10 + digit_value(s[0]) > u32::MAX {
        Err(IntErrorKind::PosOverflow)
    } else {
        parse_digits(s.drop_first(), acc * 10 + digit_value(s[0]))
    }
}

/// Reading a decimal `u32` as `str::parse::<u32>` does: an optional leading `+`, then one or more
/// digits; the characters are read from the left and the first fault decides the error.
pub open spec fn spec_parse_u32(s: Seq<char>) -> Result<u32, IntErrorKind> {
    if s.len() == 0 {
        Err(IntErrorKind::Empty)
    } else if s.len() == 1 && (s[0] == '+' || s[0] == '-') {
        Err(IntErrorKind::InvalidDigit)
    } else if s[0] == '+' {
        parse_digits(s.drop_first(), 0)
    } else {
        parse_digits(s, 0)
    }
}

/// Reads a decimal `u32` from `s[from..to]`.
fn parse_u32(s: &Vec<char>, from: usize, to: usize) -> (r: Result<u32, IntErrorKind>)
    requires
        from <= to <= s.len(),
    ensures
        r == spec_parse_u32(s@.subrange(from as int, to as int)),
{
    let ghost t = s@.subrange(from as int, to as int);
    if from == to {
        return Err(IntErrorKind::Empty);
    }
    if to - from == 1 && (s[from] == '+' || s[from] == '-') {
        return Err(IntErrorKind::InvalidDigit);
    }
    let mut i: usize = from;
    if s[from] == '+' {
        i = from + 1;
    }
    proof {
        assert(t[0] == s@[from as int]);
        if s@[from as int] == '+' {
            assert(t.drop_first() =~= s@.subrange(i as int, to as int));
        } else {
            assert(t =~= s@.subrange(i as int, to as int));
        }
    }
    let mut acc: u32 = 0;
    while i < to
        invariant
            from <= i <= to <= s.len(),
            t == s@.subrange(from as int, to as int),
            spec_parse_u32(t) == parse_digits(s@.subrange(i as int, to as int), acc as int),
        decreases to - i,
    {
        let ghost rest = s@.subrange(i as int, to as int);
        proof {
            assert(rest[0] == s@[i as int]);
            assert(rest.drop_first() =~= s@.subrange(i + 1, to as int));
        }
        let c = s[i];
        if !('0' <= c && c <= '9') {
            return Err(IntErrorKind::InvalidDigit);
        }
        let d: u32 = (c as u32) - ('0' as u32);
        let next: u64 = acc as u64 * 10 + d as u64;
        if next > u32::MAX as u64 {
            return Err(IntErrorKind::PosOverflow);
        }
        acc = next as u32;
        i = i + 1;
    }
    proof {
        assert(s@.subrange(i as int, to as int).len() == 0);
    }
    Ok(acc)
}

/// The first position of `,` in `s`, if any.
pub open spec fn comma_index(s: Seq<char>) -> Option<int>
    decreases s.len(),
{
    if s.len() == 0 {
        None
    } else if s[0] == ',' {
        Some(0)
    } else {
        match comma_index(s.drop_first()) {
            Some(i) => Some(i + 1),
            None => None,
        }
    }
}

/// The first comma is at `k` when none comes before it; there is none when no position holds one.
proof fn lemma_comma_index(s: Seq<char>, k: int)
    requires
        0 <= k <= s.len(),
        forall|j: int| 0 <= j < k ==> s[j] != ',',
        k < s.len() ==> s[k] == ',',
    ensures
        comma_index(s) == if k < s.len() {
            Some(k)
        } else {
            None::<int>
        },
    decreases s.len(),
{
    if s.len() > 0 && k > 0 {
        assert forall|j: int| 0 <= j < k - 1 implies s.drop_first()[j] != ',' by {
            assert(s.drop_first()[j] == s[j + 1]);
        }
        if k < s.len() {
            assert(s.drop_first()[k - 1] == s[k]);
        }
        lemma_comma_index(s.drop_first(), k - 1);
    }
}

/// Reading `util,rate`: the text is split at its first comma, each side is trimmed of white
/// space and read as a decimal `u32`.
pub open spec fn spec_parse_rate_point(s: Seq<char>) -> Result<RatePointArg, RatePointParseError> {
    match comma_index(s) {
        None => Err(RatePointParseError::MissingSeparator),
        Some(k) => match spec_parse_u32(trim(s.take(k))) {
            Err(e) => Err(RatePointParseError::InvalidUtil(e)),
            Ok(util) => match spec_parse_u32(trim(s.skip(k + 1))) {
                Err(e) => Err(RatePointParseError::InvalidRate(e)),
                Ok(rate) => Ok(RatePointArg { util, rate }),
            },
        },
    }
}

/// The positions `[a, b)` of `s[from..to]` trimmed of white space.
fn trim_bounds(s: &Vec<char>, from: usize, to: usize) -> (r: (usize, usize))
    requires
        from <= to <= s.len(),
    ensures
        from <= r.0 <= r.1 <= to,
        s@.subrange(r.0 as int, r.1 as int) == trim(s@.subrange(from as int, to as int)),
{
    let mut a: usize = from;
    while a < to && char_is_whitespace(s[a])
        invariant
            from <= a <= to <= s.len(),
            trim_start(s@.subrange(from as int, to as int)) == trim_start(
                s@.subrange(a as int, to as int),
            ),
        decreases to - a,
    {
        proof {
            assert(s@.subrange(a as int, to as int)[0] == s@[a as int]);
            assert(s@.subrange(a as int, to as int).drop_first() =~= s@.subrange(a + 1, to as int));
        }
        a = a + 1;
    }
    proof {
        if a < to {
            assert(s@.subrange(a as int, to as int)[0] == s@[a as int]);
        }
    }
    let mut b: usize = to;
    while b > a && char_is_whitespace(s[b - 1])
        invariant
            from <= a <= b <= to <= s.len(),
            trim(s@.subrange(from as int, to as int)) == trim_end(s@.subrange(a as int, b as int)),
        decreases b - a,
    {
        proof {
            assert(s@.subrange(a as int, b as int).last() == s@[b - 1]);
            assert(s@.subrange(a as int, b as int).drop_last() =~= s@.subrange(a as int, b - 1));
        }
        b = b - 1;
    }
    proof {
        if b > a {
            assert(s@.subrange(a as int, b as int).last() == s@[b - 1]);
        }
    }
    (a, b)
}

/// The characters of `s`.
fn chars_of(s: &str) -> (r: Vec<char>)
    ensures
        r@ == s@,
{
    let n = s.unicode_len();
    let mut v: Vec<char> = Vec::new();
    let mut i: usize = 0;
    while i < n
        invariant
            n == s@.len(),
            i <= n,
            v@ == s@.take(i as int),
        decreases n - i,
    {
        v.push(s.get_char(i));
        proof {
            assert(v@ =~= s@.take(i + 1));
        }
        i = i + 1;
    }
    proof {
        assert(s@.take(n as int) =~= s@);
    }
    v
}

impl RatePointArg {
    /// Reads `util,rate`, as the command line gives a rate-curve point. `util` is a share of 100%
    /// and `rate` a share of 1000%, each out of `u32::MAX`.
    pub fn parse(s: &str) -> (r: Result<RatePointArg, RatePointParseError>)
        ensures
            r == spec_parse_rate_point(s@),
    {
        let cs = chars_of(s);
        let mut k: usize = 0;
        while k < cs.len() && cs[k] != ','
            invariant
                k <= cs.len(),
                cs@ == s@,
                forall|j: int| 0 <= j < k ==> cs@[j] != ',',
            decreases cs.len() - k,
        {
            k = k + 1;
        }
        proof {
            lemma_comma_index(cs@, k as int);
        }
        if k == cs.len() {
            return Err(RatePointParseError::MissingSeparator);
        }
        proof {
            assert(cs@.take(k as int) =~= cs@.subrange(0, k as int));
            assert(cs@.skip(k + 1) =~= cs@.subrange(k + 1, cs@.len() as int));
        }
        let (ua, ub) = trim_bounds(&cs, 0, k);
        let util = match parse_u32(&cs, ua, ub) {
            Err(e) => {
                return Err(RatePointParseError::InvalidUtil(e));
            },
            Ok(v) => v,
        };
        let (ra, rb) = trim_bounds(&cs, k + 1, cs.len());
        let rate = match parse_u32(&cs, ra, rb) {
            Err(e) => {
                return Err(RatePointParseError::InvalidRate(e));
            },
            Ok(v) => v,
        };
        Ok(RatePointArg { util, rate })
    }

    /// Reads `util,rate` as [`RatePointArg::parse`] does, with its error as the message the
    /// command line shows.
    pub fn from_str(s: &str) -> (r: Result<RatePointArg, String>)
        ensures
            match spec_parse_rate_point(s@) {
                Ok(p) => r == Ok::<RatePointArg, String>(p),
                Err(e) => r matches Err(m) && m@ == rate_point_error_text(e),
            },
    {
        match RatePointArg::parse(s) {
            Ok(p) => Ok(p),
            Err(e) => Err(e.message()),
        }
    }
}

/// What `ParseIntError` says for each kind.
pub open spec fn int_error_text(k: IntErrorKind) -> Seq<char> {
    match k {
        IntErrorKind::Empty => "cannot parse integer from empty string"@,
        IntErrorKind::InvalidDigit => "invalid digit found in string"@,
        IntErrorKind::PosOverflow => "number too large to fit in target type"@,
    }
}

/// The message of a rate-point error.
pub open spec fn rate_point_error_text(e: RatePointParseError) -> Seq<char> {
    match e {
        RatePointParseError::MissingSeparator => "expected format: util,rate"@,
        RatePointParseError::InvalidUtil(k) => "invalid util u32: "@ + int_error_text(k),
        RatePointParseError::InvalidRate(k) => "invalid rate u32: "@ + int_error_text(k),
    }
}

impl IntErrorKind {
    /// What `ParseIntError` says for this kind.
    pub fn message(&self) -> (r: String)
        ensures
            r@ == int_error_text(*self),
    {
        match self {
            IntErrorKind::Empty => String::from_str("cannot parse integer from empty string"),
            IntErrorKind::InvalidDigit => String::from_str("invalid digit found in string"),
            IntErrorKind::PosOverflow => String::from_str("number too large to fit in target type"),
        }
    }
}

impl RatePointParseError {
    /// The message the command line shows for this error.
    pub fn message(&self) -> (r: String)
        ensures
            r@ == rate_point_error_text(*self),
    {
        match self {
            RatePointParseError::MissingSeparator => String::from_str("expected format: util,rate"),
            RatePointParseError::InvalidUtil(k) => {
                let head = String::from_str("invalid util u32: ");
                let tail = k.message();
                head.concat(tail.as_str())
            },
            RatePointParseError::InvalidRate(k) => {
                let head = String::from_str("invalid rate u32: ");
                let tail = k.message();
                head.concat(tail.as_str())
            },
        }
    }
}

/// Whether `a` and `b` hold the same characters.
fn str_eq(a: &str, b: &str) -> (r: bool)
    ensures
        r == (a@ == b@),
{
    let n = a.unicode_len();
    if n != b.unicode_len() {
        return false;
    }
    let mut i: usize = 0;
    while i < n
        invariant
            n == a@.len(),
            n == b@.len(),
            i <= n,
            forall|j: int| 0 <= j < i ==> a@[j] == b@[j],
        decreases n - i,
    {
        if a.get_char(i) != b.get_char(i) {
            return false;
        }
        i = i + 1;
    }
    proof {
        assert(a@ =~= b@);
    }
    true
}

/// A bank update's operational state, as a JSON config spells it: `paused`, `operational`,
/// `reduce_only` or `reduceonly`; any other text means operational.
pub fn config_operational_state(s: &str) -> (r: BankOperationalState)
    ensures
        r == if s@ == "paused"@ {
            BankOperationalState::Paused
        } else if s@ == "reduce_only"@ || s@ == "reduceonly"@ {
            BankOperationalState::ReduceOnly
        } else {
            BankOperationalState::Operational
        },
{
    proof {
        reveal_strlit("paused");
        reveal_strlit("operational");
        reveal_strlit("reduce_only");
        reveal_strlit("reduceonly");
        assert("paused"@.len() == 6 && "operational"@.len() == 11 && "reduce_only"@.len() == 11
            && "reduceonly"@.len() == 10);
        assert("operational"@[0] != "reduce_only"@[0]);
    }
    if str_eq(s, "paused") {
        BankOperationalState::Paused
    } else if str_eq(s, "operational") {
        BankOperationalState::Operational
    } else if str_eq(s, "reduce_only") || str_eq(s, "reduceonly") {
        BankOperationalState::ReduceOnly
    } else {
        BankOperationalState::Operational
    }
}

/// A bank update's risk tier, as a JSON config spells it: `isolated`, else collateral.
pub fn config_risk_tier(s: &str) -> (r: RiskTier)
    ensures
        r == if s@ == "isolated"@ {
            RiskTier::Isolated
        } else {
            RiskTier::Collateral
        },
{
    if str_eq(s, "isolated") {
        RiskTier::Isolated
    } else {
        RiskTier::Collateral
    }
}

/// The lower-case form of a text, as `str::to_lowercase` computes it.
pub uninterp spec fn lowercase(s: Seq<char>) -> Seq<char>;

/// std's `str::to_lowercase`. Its contract claims only that the result's characters are
/// [`lowercase`] of the text's: a function of the text alone, left unstated.
#[verifier::external_body]
fn str_to_lowercase(s: &str) -> (r: String)
    ensures
        r@ == lowercase(s@),
{
    s.to_lowercase()
}

/// A new bank's risk tier, as a JSON config spells it in any case: `collateral` or `isolated`
/// once lower-cased; other text is refused with a message naming it.
pub fn add_bank_config_risk_tier(s: &str) -> (r: Result<RiskTierArg, String>)
    ensures
        lowercase(s@) == "collateral"@ ==> r == Ok::<RiskTierArg, String>(RiskTierArg::Collateral),
        lowercase(s@) == "isolated"@ ==> r == Ok::<RiskTierArg, String>(RiskTierArg::Isolated),
        lowercase(s@) != "collateral"@ && lowercase(s@) != "isolated"@ ==> (r matches Err(m) && m@
            == "Unknown risk_tier in config: "@ + lowercase(s@)),
{
    proof {
        reveal_strlit("collateral");
        reveal_strlit("isolated");
        assert("collateral"@.len() == 10 && "isolated"@.len() == 8);
    }
    let lower = str_to_lowercase(s);
    if str_eq(lower.as_str(), "collateral") {
        Ok(RiskTierArg::Collateral)
    } else if str_eq(lower.as_str(), "isolated") {
        Ok(RiskTierArg::Isolated)
    } else {
        let head = String::from_str("Unknown risk_tier in config: ");
        Err(head.concat(lower.as_str()))
    }
}

} // verus!
