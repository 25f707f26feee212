use std::string::FromUtf8Error;
use vstd::prelude::*;
use vstd::string::StringSliceAdditionalSpecFns;
use vstd::utf8::{decode_utf8, valid_utf8};

use crate::drift_client::trader::TokenBalance;
use crate::drift_cpi::{PerpPosition, Pubkey, SpotBalanceType, SpotMarket, SpotPosition};

verus! {

#[verifier::external_type_specification]
#[verifier::external_body]
pub struct ExFromUtf8Error(std::string::FromUtf8Error);

/// The address of the Drift program.
pub open spec fn drift_program_id() -> Seq<u8> {
    seq![
        9u8, 84, 219, 190, 158, 201, 96, 201, 138, 122, 41, 63, 226, 19, 54, 150, 111, 225,
        128, 209, 81, 174, 75, 129, 121, 86, 31, 137, 133, 74, 83, 246,
    ]
}

/// The address of the Drift program.
pub fn id() -> (r: Pubkey)
    ensures
        r.0@ == drift_program_id(),
{
    let r = Pubkey(
        [
            9u8, 84, 219, 190, 158, 201, 96, 201, 138, 122, 41, 63, 226, 19, 54, 150, 111, 225,
            128, 209, 81, 174, 75, 129, 121, 86, 31, 137, 133, 74, 83, 246,
        ],
    );
    assert(r.0@ =~= drift_program_id());
    r
}

/// What `Pubkey::try_find_program_address` returns for `seeds` and a
/// program address: the derived address (as bytes) and its bump seed, or
/// nothing when no bump seed gives an address (or the seeds break Solana's
/// limits).
pub uninterp spec fn program_address(seeds: Seq<Seq<u8>>, program_id: Seq<u8>) -> Option<(Seq<u8>, u8)>;

/// The address that the Drift program derives from `seeds`, if any.
pub open spec fn drift_address(seeds: Seq<Seq<u8>>) -> Option<Seq<u8>> {
    match program_address(seeds, drift_program_id()) {
        Some((a, _)) => Some(a),
        None => None,
    }
}

/// The bytes of an address, if there is one.
pub open spec fn key_bytes_of(k: Option<Pubkey>) -> Option<Seq<u8>> {
    match k {
        Some(k) => Some(k.0@),
        None => None,
    }
}

/// `solana_sdk::pubkey::Pubkey::try_find_program_address`: the program
/// derived address of `seeds` under `program_id` and its bump seed, or
/// `None`; the result is what `program_address` names.
#[verifier::external_body]
fn try_find_program_address(seeds: &Vec<Vec<u8>>, program_id: &Pubkey) -> (r: Option<(Pubkey, u8)>)
    ensures
        match r {
            Some((k, bump)) => program_address(seeds.deep_view(), program_id.0@) == Some((k.0@, bump)),
            None => program_address(seeds.deep_view(), program_id.0@) is None,
        },
{
    let s: Vec<&[u8]> = seeds.iter().map(|x| x.as_slice()).collect();
    let id = solana_sdk::pubkey::Pubkey::new_from_array(program_id.0);
    match solana_sdk::pubkey::Pubkey::try_find_program_address(&s, &id) {
        Some((key, bump)) => Some((Pubkey(key.to_bytes()), bump)),
        None => None,
    }
}

/// The Drift address derived from `seeds`, if any.
fn drift_pda(seeds: &Vec<Vec<u8>>) -> (r: Option<Pubkey>)
    ensures
        key_bytes_of(r) == drift_address(seeds.deep_view()),
{
    match try_find_program_address(seeds, &id()) {
        Some((k, _)) => Some(k),
        None => None,
    }
}

/// `String::from_utf8`: the string the bytes encode, or an error when they
/// are not valid UTF-8.
#[verifier::external_body]
fn string_from_utf8(bytes: Vec<u8>) -> (r: Result<String, FromUtf8Error>)
    ensures
        r is Ok <==> valid_utf8(bytes@),
        r matches Ok(s) ==> s@ == decode_utf8(bytes@),
{
    String::from_utf8(bytes)
}

/// Whether `c` has the Unicode White_Space property.
pub open spec fn is_white_space(c: char) -> bool {
    let n = c as u32;
    ||| 0x9 <= n <= 0xd
    ||| n == 0x20
    ||| n == 0x85
    ||| n == 0xa0
    ||| n == 0x1680
    ||| 0x2000 <= n <= 0x200a
    ||| n == 0x2028
    ||| n == 0x2029
    ||| n == 0x202f
    ||| n == 0x205f
    ||| n == 0x3000
}

/// `s` without its leading white space.
pub open spec fn trim_start(s: Seq<char>) -> Seq<char>
    decreases s.len(),
{
    if s.len() > 0 && is_white_space(s[0]) {
        trim_start(s.drop_first())
    } else {
        s
    }
}

/// `s` without its trailing white space.
pub open spec fn trim_end(s: Seq<char>) -> Seq<char>
    decreases s.len(),
{
    if s.len() > 0 && is_white_space(s.last()) {
        trim_end(s.drop_last())
    } else {
        s
    }
}

/// `s` without its leading and trailing white space.
pub open spec fn trimmed(s: Seq<char>) -> Seq<char> {
    trim_end(trim_start(s))
}

/// `str::trim`: the string without its leading and trailing white space,
/// white space being the characters of the Unicode White_Space property.
#[verifier::external_body]
fn str_trim(s: &str) -> (r: &str)
    ensures
        r@ == trimmed(s@),
{
    s.trim()
}

/// The little-endian bytes of `x`.
pub open spec fn le_bytes_u16(x: u16) -> Seq<u8> {
    seq![(x % 256) as u8, (x / 256) as u8]
}

fn le_bytes(x: u16) -> (r: Vec<u8>)
    ensures
        r@ == le_bytes_u16(x),
{
    let r = vec![(x % 256) as u8, (x / 256) as u8];
    assert(r@ =~= le_bytes_u16(x));
    r
}

fn key_bytes(k: &Pubkey) -> (r: Vec<u8>)
    ensures
        r@ == k.0@,
{
    let mut v: Vec<u8> = Vec::new();
    let mut i: usize = 0;
    while i < 32
        invariant
            i <= 32,
            k.0@.len() == 32,
            v@ == k.0@.take(i as int),
        decreases 32 - i,
    {
        v.push(k.0[i]);
        assert(k.0@.take(i + 1) =~= k.0@.take(i as int).push(k.0@[i as int]));
        i = i + 1;
    }
    assert(k.0@.take(32) =~= k.0@);
    v
}

/// "user"
pub open spec fn seed_user() -> Seq<u8> {
    seq![117u8, 115, 101, 114]
}

/// "user_stats"
pub open spec fn seed_user_stats() -> Seq<u8> {
    seq![117u8, 115, 101, 114, 95, 115, 116, 97, 116, 115]
}

/// "spot_market"
pub open spec fn seed_spot_market() -> Seq<u8> {
    seq![115u8, 112, 111, 116, 95, 109, 97, 114, 107, 101, 116]
}

/// "spot_market_vault"
pub open spec fn seed_spot_market_vault() -> Seq<u8> {
    seq![115u8, 112, 111, 116, 95, 109, 97, 114, 107, 101, 116, 95, 118, 97, 117, 108, 116]
}

/// "perp_market"
pub open spec fn seed_perp_market() -> Seq<u8> {
    seq![112u8, 101, 114, 112, 95, 109, 97, 114, 107, 101, 116]
}

/// "drift_state"
pub open spec fn seed_drift_state() -> Seq<u8> {
    seq![100u8, 114, 105, 102, 116, 95, 115, 116, 97, 116, 101]
}

/// The errors of `DriftUtils::spot_balance`.
#[derive(Debug, Clone, Copy, PartialEq, Eq, Structural)]
pub enum BalanceError {
    CheckedSubOverflow,
    CheckedMulOverflow,
    CheckedDivOverflow,
    CheckedAddOverflow,
}

impl BalanceError {
    /// The message of the error.
    pub fn message(&self) -> (r: String)
        ensures
            r@ == match *self {
                BalanceError::CheckedSubOverflow => "Checked sub overflow"@,
                BalanceError::CheckedMulOverflow => "Checked mul overflow"@,
                BalanceError::CheckedDivOverflow => "Checked div overflow"@,
                BalanceError::CheckedAddOverflow => "Checked add overflow"@,
            },
    {
        broadcast use vstd::string::to_string_from_display_ensures_for_str;

        match self {
            BalanceError::CheckedSubOverflow => "Checked sub overflow".to_string(),
            BalanceError::CheckedMulOverflow => "Checked mul overflow".to_string(),
            BalanceError::CheckedDivOverflow => "Checked div overflow".to_string(),
            BalanceError::CheckedAddOverflow => "Checked add overflow".to_string(),
        }
    }
}

pub open spec fn pow10(e: nat) -> nat
    decreases e,
{
    if e == 0 {
        1
    } else {
        10 * pow10((e - 1) as nat)
    }
}

/// The scaled balance of `token_amount` tokens of a spot market, or the
/// step whose checked arithmetic fails.
pub open spec fn spot_balance_value(
    token_amount: u128,
    decimals: u32,
    cumulative_interest: u128,
    round_up: bool,
) -> Result<u128, BalanceError> {
    if decimals > 19 {
        Err(BalanceError::CheckedSubOverflow)
    } else {
        let product = token_amount * pow10((19 - decimals) as nat);
        if product > u128::MAX {
            Err(BalanceError::CheckedMulOverflow)
        } else if cumulative_interest == 0 {
            Err(BalanceError::CheckedDivOverflow)
        } else {
            let balance = product / cumulative_interest as int;
            if round_up && balance != 0 {
                if balance + 1 > u128::MAX {
                    Err(BalanceError::CheckedAddOverflow)
                } else {
                    Ok((balance + 1) as u128)
                }
            } else {
                Ok(balance as u128)
            }
        }
    }
}

proof fn lemma_deep_bytes(v: Vec<u8>)
    ensures
        v.deep_view() == v@,
{
    assert(v.deep_view() =~= v@);
}

/// A spot position slot is free when it holds no balance and no orders.
pub open spec fn spot_position_free(pos: SpotPosition) -> bool {
    pos.scaled_balance == 0 && pos.open_orders == 0
}

/// A perp position slot is free when it has no base amount, no open orders
/// or open bids or asks, no unsettled pnl and no LP shares.
pub open spec fn perp_position_free(pos: PerpPosition) -> bool {
    &&& pos.base_asset_amount == 0
    &&& !(pos.open_orders != 0 || pos.open_bids != 0 || pos.open_asks != 0)
    &&& !(pos.base_asset_amount == 0 && pos.quote_asset_amount != 0)
    &&& !(pos.lp_shares > 0)
}

pub struct DriftUtils;

impl DriftUtils {
    /// The name held in 32 bytes, without surrounding white space; the
    /// bytes must be UTF-8.
    pub fn decode_name(name: &[u8; 32]) -> (r: String)
        requires
            valid_utf8(name@),
        ensures
            r@ == trimmed(decode_utf8(name@)),
    {
        let mut v: Vec<u8> = Vec::new();
        let mut i: usize = 0;
        while i < 32
            invariant
                i <= 32,
                name@.len() == 32,
                v@ == name@.take(i as int),
            decreases 32 - i,
        {
            v.push(name[i]);
            assert(name@.take(i + 1) =~= name@.take(i as int).push(name@[i as int]));
            i = i + 1;
        }
        assert(name@.take(32) =~= name@);
        match string_from_utf8(v) {
            Ok(s) => str_trim(s.as_str()).to_owned(),
            Err(_) => String::new(),
        }
    }

    /// The bytes of `name`, padded with zeros to 32 bytes; a name longer
    /// than 32 bytes is left out, as it cannot be held.
    pub fn encode_name(name: &str) -> (r: [u8; 32])
        requires
            name.spec_bytes().len() <= 32,
        ensures
            forall|i: int|
                0 <= i < 32 ==> #[trigger] r@[i] == (if i < name.spec_bytes().len() {
                    name.spec_bytes()[i]
                } else {
                    0u8
                }),
    {
        let b = name.as_bytes();
        let n = b.len();
        let mut bytes = [0u8; 32];
        let mut i: usize = 0;
        while i < n
            invariant
                n == b@.len(),
                b@ == name.spec_bytes(),
                n <= 32,
                i <= n,
                forall|j: int|
                    0 <= j < 32 ==> #[trigger] bytes@[j] == (if j < i {
                        b@[j]
                    } else {
                        0u8
                    }),
            decreases n - i,
        {
            bytes[i] = b[i];
            i = i + 1;
        }
        bytes
    }

    pub fn user_pda(authority: &Pubkey, sub_account_id: u16) -> (r: Option<Pubkey>)
        ensures
            key_bytes_of(r) == drift_address(
                seq![seed_user(), authority.0@, le_bytes_u16(sub_account_id)],
            ),
    {
        let s0 = vec![117u8, 115, 101, 114];
        assert(s0@ =~= seed_user());
        let s1 = key_bytes(authority);
        assert(s1@ =~= authority.0@);
        let s2 = le_bytes(sub_account_id);
        assert(s2@ =~= le_bytes_u16(sub_account_id));
        let seeds = vec![s0, s1, s2];
        proof {
            lemma_deep_bytes(seeds@[0]);
            lemma_deep_bytes(seeds@[1]);
            lemma_deep_bytes(seeds@[2]);
        }
        assert(seeds.deep_view() =~= seq![seed_user(), authority.0@, le_bytes_u16(sub_account_id)]);
        drift_pda(&seeds)
    }

    pub fn user_stats_pda(authority: &Pubkey) -> (r: Option<Pubkey>)
        ensures
            key_bytes_of(r) == drift_address(seq![seed_user_stats(), authority.0@]),
    {
        let s0 = vec![117u8, 115, 101, 114, 95, 115, 116, 97, 116, 115];
        assert(s0@ =~= seed_user_stats());
        let s1 = key_bytes(authority);
        assert(s1@ =~= authority.0@);
        let seeds = vec![s0, s1];
        proof {
            lemma_deep_bytes(seeds@[0]);
            lemma_deep_bytes(seeds@[1]);
        }
        assert(seeds.deep_view() =~= seq![seed_user_stats(), authority.0@]);
        drift_pda(&seeds)
    }

    pub fn spot_market_pda(market_index: u16) -> (r: Option<Pubkey>)
        ensures
            key_bytes_of(r) == drift_address(
                seq![seed_spot_market(), le_bytes_u16(market_index)],
            ),
    {
        let s0 = vec![115u8, 112, 111, 116, 95, 109, 97, 114, 107, 101, 116];
        assert(s0@ =~= seed_spot_market());
        let s1 = le_bytes(market_index);
        assert(s1@ =~= le_bytes_u16(market_index));
        let seeds = vec![s0, s1];
        proof {
            lemma_deep_bytes(seeds@[0]);
            lemma_deep_bytes(seeds@[1]);
        }
        assert(seeds.deep_view() =~= seq![seed_spot_market(), le_bytes_u16(market_index)]);
        drift_pda(&seeds)
    }

    /// calculate the PDA for a drift spot market vault given index
    pub fn spot_market_vault(market_index: u16) -> (r: Option<Pubkey>)
        ensures
            key_bytes_of(r) == drift_address(
                seq![seed_spot_market_vault(), le_bytes_u16(market_index)],
            ),
    {
        let s0 = vec![115u8, 112, 111, 116, 95, 109, 97, 114, 107, 101, 116, 95, 118, 97, 117, 108, 116];
        assert(s0@ =~= seed_spot_market_vault());
        let s1 = le_bytes(market_index);
        assert(s1@ =~= le_bytes_u16(market_index));
        let seeds = vec![s0, s1];
        proof {
            lemma_deep_bytes(seeds@[0]);
            lemma_deep_bytes(seeds@[1]);
        }
        assert(seeds.deep_view() =~= seq![seed_spot_market_vault(), le_bytes_u16(market_index)]);
        drift_pda(&seeds)
    }

    pub fn perp_market_pda(market_index: u16) -> (r: Option<Pubkey>)
        ensures
            key_bytes_of(r) == drift_address(
                seq![seed_perp_market(), le_bytes_u16(market_index)],
            ),
    {
        let s0 = vec![112u8, 101, 114, 112, 95, 109, 97, 114, 107, 101, 116];
        assert(s0@ =~= seed_perp_market());
        let s1 = le_bytes(market_index);
        assert(s1@ =~= le_bytes_u16(market_index));
        let seeds = vec![s0, s1];
        proof {
            lemma_deep_bytes(seeds@[0]);
            lemma_deep_bytes(seeds@[1]);
        }
        assert(seeds.deep_view() =~= seq![seed_perp_market(), le_bytes_u16(market_index)]);
        drift_pda(&seeds)
    }

    pub fn state_pda() -> (r: Option<Pubkey>)
        ensures
            key_bytes_of(r) == drift_address(seq![seed_drift_state()]),
    {
        let s0 = vec![100u8, 114, 105, 102, 116, 95, 115, 116, 97, 116, 101];
        assert(s0@ =~= seed_drift_state());
        let seeds = vec![s0];
        proof {
            lemma_deep_bytes(seeds@[0]);
        }
        assert(seeds.deep_view() =~= seq![seed_drift_state()]);
        drift_pda(&seeds)
    }

    /// The addresses of the first `number_of_spot_markets` spot markets and
    /// the first `number_of_markets` perp markets, by index.
    pub fn market_pdas(number_of_spot_markets: u16, number_of_markets: u16) -> (r: (Vec<Option<Pubkey>>, Vec<Option<Pubkey>>))
        ensures
            r.0@.len() == number_of_spot_markets,
            r.1@.len() == number_of_markets,
            forall|i: int|
                0 <= i < number_of_spot_markets ==> key_bytes_of(#[trigger] r.0@[i]) == drift_address(
                    seq![seed_spot_market(), le_bytes_u16(i as u16)],
                ),
            forall|i: int|
                0 <= i < number_of_markets ==> key_bytes_of(#[trigger] r.1@[i]) == drift_address(
                    seq![seed_perp_market(), le_bytes_u16(i as u16)],
                ),
    {
        let mut spot: Vec<Option<Pubkey>> = Vec::new();
        let mut i: u16 = 0;
        while i < number_of_spot_markets
            invariant
                i <= number_of_spot_markets,
                spot@.len() == i,
                forall|j: int|
                    0 <= j < i ==> key_bytes_of(#[trigger] spot@[j]) == drift_address(
                        seq![seed_spot_market(), le_bytes_u16(j as u16)],
                    ),
            decreases number_of_spot_markets - i,
        {
            spot.push(Self::spot_market_pda(i));
            i = i + 1;
        }
        let mut perp: Vec<Option<Pubkey>> = Vec::new();
        let mut i: u16 = 0;
        while i < number_of_markets
            invariant
                i <= number_of_markets,
                perp@.len() == i,
                forall|j: int|
                    0 <= j < i ==> key_bytes_of(#[trigger] perp@[j]) == drift_address(
                        seq![seed_perp_market(), le_bytes_u16(j as u16)],
                    ),
            decreases number_of_markets - i,
        {
            perp.push(Self::perp_market_pda(i));
            i = i + 1;
        }
        (spot, perp)
    }

    /// The scaled balance that `token_amount` tokens make in a spot market:
    /// `token_amount * 10^(19 - decimals) / cumulative interest` (rounded
    /// up by one when asked and nonzero), with each step checked.
    pub fn spot_balance(
        token_amount: u128,
        spot_market: &SpotMarket,
        balance_type: &SpotBalanceType,
        round_up: bool,
    ) -> (r: Result<TokenBalance, BalanceError>)
        ensures
            ({
                let interest = match balance_type {
                    SpotBalanceType::Deposit => spot_market.cumulative_deposit_interest,
                    SpotBalanceType::Borrow => spot_market.cumulative_borrow_interest,
                };
                match r {
                    Ok(t) => spot_balance_value(
                        token_amount,
                        spot_market.decimals,
                        interest,
                        round_up,
                    ) == Ok::<u128, BalanceError>(t.balance) && t.mint == spot_market.mint,
                    Err(e) => spot_balance_value(
                        token_amount,
                        spot_market.decimals,
                        interest,
                        round_up,
                    ) == Err::<u128, BalanceError>(e),
                }
            }),
    {
        if spot_market.decimals > 19 {
            return Err(BalanceError::CheckedSubOverflow);
        }
        let exp: u32 = 19 - spot_market.decimals;
        proof {
            Self::lemma_pow10_mono(0, 19);
        }
        let mut precision_increase: u128 = 1;
        let mut k: u32 = 0;
        while k < exp
            invariant
                k <= exp <= 19,
                precision_increase == pow10(k as nat),
                pow10(k as nat) <= pow10(19),
            decreases exp - k,
        {
            proof {
                Self::lemma_pow10_mono((k + 1) as nat, 19);
            }
            precision_increase = precision_increase * 10;
            k = k + 1;
        }
        let cumulative_interest = match balance_type {
            SpotBalanceType::Deposit => spot_market.cumulative_deposit_interest,
            SpotBalanceType::Borrow => spot_market.cumulative_borrow_interest,
        };
        let product = match token_amount.checked_mul(precision_increase) {
            Some(p) => p,
            None => return Err(BalanceError::CheckedMulOverflow),
        };
        let mut balance = match product.checked_div(cumulative_interest) {
            Some(b) => b,
            None => return Err(BalanceError::CheckedDivOverflow),
        };
        if round_up && balance != 0 {
            balance = match balance.checked_add(1) {
                Some(b) => b,
                None => return Err(BalanceError::CheckedAddOverflow),
            };
        }
        Ok(TokenBalance { balance, mint: spot_market.mint })
    }

    proof fn lemma_pow10_mono(a: nat, b: nat)
        requires
            a <= b,
        ensures
            pow10(a) <= pow10(b),
            pow10(19) == 10_000_000_000_000_000_000,
        decreases b - a,
    {
        reveal_with_fuel(pow10, 20);
        if a < b {
            Self::lemma_pow10_mono(a, (b - 1) as nat);
        }
    }

    /// A spot position slot is free when it holds no balance and no orders.
    pub fn spot_position_available(pos: &SpotPosition) -> (r: bool)
        ensures
            r == spot_position_free(*pos),
    {
        pos.scaled_balance == 0 && pos.open_orders == 0
    }

    /// A perp position slot is free when it has no base amount, no open
    /// orders, no unsettled pnl and no LP shares.
    pub fn perp_position_available(pos: &PerpPosition) -> (r: bool)
        ensures
            r == perp_position_free(*pos),
    {
        !Self::perp_is_open_position(pos) && !Self::perp_has_open_order(pos)
            && !Self::has_unsettled_pnl(pos) && !Self::perp_is_lp(pos)
    }

    fn perp_is_open_position(pos: &PerpPosition) -> (r: bool)
        ensures
            r == (pos.base_asset_amount != 0),
    {
        pos.base_asset_amount != 0
    }

    fn perp_has_open_order(pos: &PerpPosition) -> (r: bool)
        ensures
            r == (pos.open_orders != 0 || pos.open_bids != 0 || pos.open_asks != 0),
    {
        pos.open_orders != 0 || pos.open_bids != 0 || pos.open_asks != 0
    }

    fn perp_is_lp(pos: &PerpPosition) -> (r: bool)
        ensures
            r == (pos.lp_shares > 0),
    {
        pos.lp_shares > 0
    }

    fn has_unsettled_pnl(pos: &PerpPosition) -> (r: bool)
        ensures
            r == (pos.base_asset_amount == 0 && pos.quote_asset_amount != 0),
    {
        pos.base_asset_amount == 0 && pos.quote_asset_amount != 0
    }
}

} // verus!
