//! Turning matched pairs into settlements, transfers and rewards.

use vstd::prelude::*;
use crate::matcher::{traded_volume, trade_pairs, Fill, PlainOrder, TradePair};
use crate::types::{ErrorCode, BPS_DENOMINATOR, MAX_TRADES_PER_BATCH};

verus! {

/// The settlement of one matched pair.
#[derive(Clone, Copy, Debug)]
pub struct Settlement {
    /// Place of the pair in its batch.
    pub trade_id: u64,
    /// Hash of the buy order.
    pub buy_order: [u8; 32],
    /// Hash of the sell order.
    pub sell_order: [u8; 32],
    /// Quantity that changes hands, fee included.
    pub amount: u64,
    /// Price at which it changes hands.
    pub price: u64,
    /// Part of the quantity that goes to the treasury.
    pub fee_amount: u64,
}

/// Who receives a transfer.
#[derive(Clone, Copy, Debug)]
pub enum Payee {
    /// The escrow held against the order with this hash.
    OrderEscrow([u8; 32]),
    /// The treasury of the pool.
    Treasury,
}

/// One transfer out of the escrow of a sell order.
#[derive(Clone, Copy, Debug)]
pub struct TransferInstruction {
    /// Settlement the transfer belongs to.
    pub trade_id: u64,
    /// Hash of the order whose escrow pays.
    pub source_order: [u8; 32],
    /// Who is paid.
    pub payee: Payee,
    /// Tokens to move.
    pub amount: u64,
}

/// The settlements of a batch with the totals that go into the pool's
/// statistics.
#[derive(Clone, Debug)]
pub struct SettlementBatch {
    /// One settlement for each matched pair, in the order of the pairs.
    pub settlements: Vec<Settlement>,
    /// Sum of the quantities of the pairs.
    pub total_volume: u128,
    /// Sum of the fees of the pairs.
    pub total_fees: u128,
}

/// The fee on a quantity at a rate in basis points, rounded down, and never
/// more than the quantity itself.
pub open spec fn trade_fee(amount: u64, fee_bps: u16) -> int {
    let raw = amount as int * fee_bps as int / (BPS_DENOMINATOR as int);
    if raw <= amount {
        raw
    } else {
        amount as int
    }
}

/// Sum of the quantities of a list of matched pairs.
pub open spec fn pairs_volume(trades: Seq<TradePair>) -> int
    decreases trades.len(),
{
    if trades.len() == 0 {
        0
    } else {
        pairs_volume(trades.drop_last()) + trades.last().matched_amount
    }
}

/// Sum of the fees of a list of matched pairs.
pub open spec fn pairs_fees(trades: Seq<TradePair>, fee_bps: u16) -> int
    decreases trades.len(),
{
    if trades.len() == 0 {
        0
    } else {
        pairs_fees(trades.drop_last(), fee_bps) + trade_fee(trades.last().matched_amount, fee_bps)
    }
}

/// The settlement of the pair at place `x` of a batch.
pub open spec fn settlement_of(trade: TradePair, x: int, fee_bps: u16) -> Settlement {
    Settlement {
        trade_id: x as u64,
        buy_order: trade.buy_order,
        sell_order: trade.sell_order,
        amount: trade.matched_amount,
        price: trade.execution_price,
        fee_amount: trade_fee(trade.matched_amount, fee_bps) as u64,
    }
}

/// The settlements of a list of matched pairs.
pub open spec fn settlements_of(trades: Seq<TradePair>, fee_bps: u16) -> Seq<Settlement> {
    Seq::new(trades.len(), |x: int| settlement_of(trades[x], x, fee_bps))
}

/// The two transfers of a settlement: the quantity less the fee to the
/// buyer's escrow, and the fee to the treasury.
pub open spec fn transfers_of(settlements: Seq<Settlement>) -> Seq<TransferInstruction> {
    Seq::new(
        2 * settlements.len(),
        |y: int|
            {
                let s = settlements[y / 2];
                if y % 2 == 0 {
                    TransferInstruction {
                        trade_id: s.trade_id,
                        source_order: s.sell_order,
                        payee: Payee::OrderEscrow(s.buy_order),
                        amount: (s.amount - s.fee_amount) as u64,
                    }
                } else {
                    TransferInstruction {
                        trade_id: s.trade_id,
                        source_order: s.sell_order,
                        payee: Payee::Treasury,
                        amount: s.fee_amount,
                    }
                }
            },
    )
}

/// Computes the fee on a quantity.
pub fn compute_trade_fee(amount: u64, fee_bps: u16) -> (fee: u64)
    ensures
        fee == trade_fee(amount, fee_bps),
        fee <= amount,
{
    assert(amount as int * fee_bps as int <= 0xffff_ffff_ffff_ffff * 0xffff) by (nonlinear_arith)
        requires
            0 <= amount <= 0xffff_ffff_ffff_ffff,
            0 <= fee_bps <= 0xffff,
    ;
    assert(0 <= amount as int * fee_bps as int) by (nonlinear_arith)
        requires
            0 <= amount,
            0 <= fee_bps,
    ;
    let raw: u128 = (amount as u128) * (fee_bps as u128) / (BPS_DENOMINATOR as u128);
    if raw <= amount as u128 {
        raw as u64
    } else {
        amount
    }
}

/// Turns the matched pairs of a batch into settlements and adds up their
/// quantities and fees. A batch of more than 256 pairs is refused.
pub fn settle_matched_trades(trades: &Vec<TradePair>, fee_bps: u16) -> (settled: Result<
    SettlementBatch,
    ErrorCode,
>)
    ensures
        trades@.len() > MAX_TRADES_PER_BATCH ==> settled == Err::<SettlementBatch, ErrorCode>(
            ErrorCode::TooManyTrades,
        ),
        trades@.len() <= MAX_TRADES_PER_BATCH ==> settled is Ok && settled->Ok_0.settlements@
            == settlements_of(trades@, fee_bps) && settled->Ok_0.total_volume == pairs_volume(
            trades@,
        ) && settled->Ok_0.total_fees == pairs_fees(trades@, fee_bps)
            && settled->Ok_0.total_fees <= settled->Ok_0.total_volume <= MAX_TRADES_PER_BATCH
            * 0xffff_ffff_ffff_ffff,
{
    if trades.len() > MAX_TRADES_PER_BATCH {
        return Err(ErrorCode::TooManyTrades);
    }
    let mut settlements: Vec<Settlement> = Vec::new();
    let mut total_volume: u128 = 0;
    let mut total_fees: u128 = 0;
    let mut x: usize = 0;
    while x < trades.len()
        invariant
            0 <= x <= trades.len(),
            trades.len() <= MAX_TRADES_PER_BATCH,
            settlements@.len() == x,
            forall|y: int|
                0 <= y < x ==> #[trigger] settlements@[y] == settlement_of(trades@[y], y, fee_bps),
            total_volume == pairs_volume(trades@.take(x as int)),
            total_fees == pairs_fees(trades@.take(x as int), fee_bps),
            total_volume <= x * 0xffff_ffff_ffff_ffff,
            total_fees <= x * 0xffff_ffff_ffff_ffff,
        decreases trades.len() - x,
    {
        let trade = trades[x];
        let fee = compute_trade_fee(trade.matched_amount, fee_bps);
        proof {
            assert(trades@.take(x + 1).drop_last() =~= trades@.take(x as int));
        }
        settlements.push(
            Settlement {
                trade_id: x as u64,
                buy_order: trade.buy_order,
                sell_order: trade.sell_order,
                amount: trade.matched_amount,
                price: trade.execution_price,
                fee_amount: fee,
            },
        );
        total_volume = total_volume + trade.matched_amount as u128;
        total_fees = total_fees + fee as u128;
        x += 1;
    }
    assert(trades@.take(trades.len() as int) =~= trades@);
    proof {
        lemma_fees_within_volume(trades@, fee_bps);
    }
    Ok(SettlementBatch { settlements, total_volume, total_fees })
}

/// Whether no settlement asks for a fee above its quantity.
pub open spec fn fees_within_amounts(settlements: Seq<Settlement>) -> bool {
    forall|x: int|
        0 <= x < settlements.len() ==> (#[trigger] settlements[x]).fee_amount
            <= settlements[x].amount
}

/// Checks that no settlement asks for a fee above its quantity.
pub fn check_fees(settlement_data: &Vec<Settlement>) -> (ok: bool)
    ensures
        ok == fees_within_amounts(settlement_data@),
{
    let mut x: usize = 0;
    while x < settlement_data.len()
        invariant
            0 <= x <= settlement_data.len(),
            forall|z: int|
                0 <= z < x ==> (#[trigger] settlement_data@[z]).fee_amount
                    <= settlement_data@[z].amount,
        decreases settlement_data.len() - x,
    {
        if settlement_data[x].fee_amount > settlement_data[x].amount {
            return false;
        }
        x += 1;
    }
    true
}

/// Turns settlements into the transfers that carry them out: for each, the
/// quantity less the fee from the seller's escrow to the buyer's, then the
/// fee from the seller's escrow to the treasury.
///
/// Refused with `SettlementFailed`, and no transfer handed out, when any
/// settlement of the batch asks for a fee above its quantity.
pub fn execute_settlements(settlement_data: &Vec<Settlement>) -> (transfers: Result<
    Vec<TransferInstruction>,
    ErrorCode,
>)
    ensures
        !fees_within_amounts(settlement_data@) ==> transfers is Err && transfers->Err_0
            == ErrorCode::SettlementFailed,
        fees_within_amounts(settlement_data@) ==> transfers is Ok && transfers->Ok_0@
            == transfers_of(settlement_data@),
{
    if !check_fees(settlement_data) {
        return Err(ErrorCode::SettlementFailed);
    }
    let mut transfers: Vec<TransferInstruction> = Vec::new();
    let mut x: usize = 0;
    while x < settlement_data.len()
        invariant
            0 <= x <= settlement_data.len(),
            fees_within_amounts(settlement_data@),
            transfers@.len() == 2 * x,
            forall|y: int|
                0 <= y < 2 * x ==> #[trigger] transfers@[y] == transfers_of(settlement_data@)[y],
        decreases settlement_data.len() - x,
    {
        let s = settlement_data[x];
        let net_amount: u64 = s.amount - s.fee_amount;
        transfers.push(
            TransferInstruction {
                trade_id: s.trade_id,
                source_order: s.sell_order,
                payee: Payee::OrderEscrow(s.buy_order),
                amount: net_amount,
            },
        );
        transfers.push(
            TransferInstruction {
                trade_id: s.trade_id,
                source_order: s.sell_order,
                payee: Payee::Treasury,
                amount: s.fee_amount,
            },
        );
        x += 1;
    }
    assert(transfers@ =~= transfers_of(settlement_data@));
    Ok(transfers)
}

/// The two transfers of a settlement move exactly its quantity: what the
/// buyer's escrow is paid and what the treasury is paid add up to it.
pub proof fn lemma_transfers_conserve(settlements: Seq<Settlement>, x: int)
    requires
        0 <= x < settlements.len(),
        settlements[x].fee_amount <= settlements[x].amount,
    ensures
        transfers_of(settlements).len() == 2 * settlements.len(),
        transfers_of(settlements)[2 * x].amount + transfers_of(settlements)[2 * x + 1].amount
            == settlements[x].amount,
        transfers_of(settlements)[2 * x].source_order == settlements[x].sell_order,
        transfers_of(settlements)[2 * x].payee == Payee::OrderEscrow(settlements[x].buy_order),
        transfers_of(settlements)[2 * x + 1].source_order == settlements[x].sell_order,
        transfers_of(settlements)[2 * x + 1].payee == Payee::Treasury,
{
}

/// The pairs of an auction carry the volume that the auction traded.
pub proof fn lemma_pairs_carry_traded_volume(orders: Seq<PlainOrder>, fills: Seq<Fill>, price: u64)
    ensures
        pairs_volume(trade_pairs(orders, fills, price)) == traded_volume(fills),
    decreases fills.len(),
{
    if fills.len() > 0 {
        lemma_pairs_carry_traded_volume(orders, fills.drop_last(), price);
        assert(trade_pairs(orders, fills, price).drop_last() =~= trade_pairs(
            orders,
            fills.drop_last(),
            price,
        ));
    }
}

/// The fees of a batch never exceed its volume.
pub proof fn lemma_fees_within_volume(trades: Seq<TradePair>, fee_bps: u16)
    ensures
        0 <= pairs_fees(trades, fee_bps) <= pairs_volume(trades),
    decreases trades.len(),
{
    if trades.len() > 0 {
        lemma_fees_within_volume(trades.drop_last(), fee_bps);
        let amount = trades.last().matched_amount;
        assert(0 <= amount as int * fee_bps as int) by (nonlinear_arith)
            requires
                0 <= amount,
                0 <= fee_bps,
        ;
    }
}

} // verus!
