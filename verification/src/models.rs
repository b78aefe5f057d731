//! The records of lottery draws and analysis requests. Instants are
//! milliseconds since the Unix epoch; a jackpot is the bit pattern of its
//! IEEE-754 double.

use vstd::prelude::*;

verus! {

/// What an analysis is asked for: a lottery type, and optionally a period
/// in days or a number of recent draws.
#[derive(Debug, Clone)]
pub struct AnalysisRequest {
    pub lottery_type: String,
    pub days: Option<u32>,
    pub draw_count: Option<u32>,
}

/// A numbers pattern and how often it occurred.
#[derive(Debug, Clone)]
pub struct NumberPattern {
    pub pattern: Vec<u32>,
    pub frequency: u32,
    pub last_occurrence: Option<i64>,
}

/// A lottery draw.
#[derive(Debug, Clone)]
pub struct LotteryDraw {
    pub id: u32,
    pub draw_date: i64,
    pub winning_numbers: Vec<u32>,
    pub bonus_number: Option<u32>,
    pub jackpot_amount: Option<u64>,
    pub lottery_type: String,
    pub created_at: i64,
}

/// A lottery draw as stored: the winning numbers are JSON text.
#[derive(Debug, Clone)]
pub struct LotteryDrawDB {
    pub id: u32,
    pub draw_date: i64,
    pub winning_numbers: String,
    pub bonus_number: Option<u32>,
    pub jackpot_amount: Option<u64>,
    pub lottery_type: String,
    pub created_at: i64,
}

/// A draw to be stored.
#[derive(Debug, Clone)]
pub struct NewLotteryDraw {
    pub draw_date: i64,
    pub winning_numbers: Vec<u32>,
    pub bonus_number: Option<u32>,
    pub jackpot_amount: Option<u64>,
    pub lottery_type: String,
}

/// A search among draws.
#[derive(Debug, Clone)]
pub struct LotterySearchQuery {
    pub lottery_type: Option<String>,
    pub start_date: Option<i64>,
    pub end_date: Option<i64>,
    pub number_filter: Option<Vec<u32>>,
    pub limit: Option<u32>,
    pub offset: Option<u32>,
}

/// A draw as answered to the interface.
#[derive(Debug, Clone)]
pub struct LotteryDrawResponse {
    pub id: u32,
    pub draw_date: i64,
    pub winning_numbers: Vec<u32>,
    pub bonus_number: Option<u32>,
    pub jackpot_amount: Option<u64>,
    pub lottery_type: String,
}

/// What `serde_json::from_str::<Vec<u32>>` reads from a text: the numbers
/// of a JSON array of unsigned 32-bit numbers, or nothing for any other
/// text.
pub uninterp spec fn json_u32_list(s: Seq<char>) -> Option<Seq<u32>>;

/// Calls `serde_json::from_str::<Vec<u32>>`; its result depends on the text
/// alone and is named `json_u32_list`.
#[verifier::external_body]
fn parse_json_u32_list(s: &str) -> (r: Option<Vec<u32>>)
    ensures
        match r {
            Some(v) => json_u32_list(s@) == Some(v@),
            None => json_u32_list(s@) is None,
        },
{
    serde_json::from_str::<Vec<u32>>(s).ok()
}

impl LotteryDraw {
    /// The draw of a stored record whose winning numbers read as `numbers`:
    /// no numbers where the text did not read.
    pub fn from_db_parsed(db: LotteryDrawDB, numbers: Option<Vec<u32>>) -> (r: LotteryDraw)
        ensures
            r.id == db.id,
            r.draw_date == db.draw_date,
            r.winning_numbers@ == match numbers { Some(v) => v@, None => Seq::<u32>::empty() },
            r.bonus_number == db.bonus_number,
            r.jackpot_amount == db.jackpot_amount,
            r.lottery_type == db.lottery_type,
            r.created_at == db.created_at,
    {
        let winning_numbers = match numbers {
            Some(v) => v,
            None => Vec::new(),
        };
        LotteryDraw {
            id: db.id,
            draw_date: db.draw_date,
            winning_numbers,
            bonus_number: db.bonus_number,
            jackpot_amount: db.jackpot_amount,
            lottery_type: db.lottery_type,
            created_at: db.created_at,
        }
    }

    /// The draw of a stored record: its winning numbers read from their
    /// JSON text, none where the text does not read.
    pub fn from_db(db: LotteryDrawDB) -> (r: LotteryDraw)
        ensures
            r.id == db.id,
            r.draw_date == db.draw_date,
            r.winning_numbers@ == match json_u32_list(db.winning_numbers@) { Some(v) => v, None => Seq::<u32>::empty() },
            r.bonus_number == db.bonus_number,
            r.jackpot_amount == db.jackpot_amount,
            r.lottery_type == db.lottery_type,
            r.created_at == db.created_at,
    {
        let numbers = parse_json_u32_list(db.winning_numbers.as_str());
        LotteryDraw::from_db_parsed(db, numbers)
    }
}

} // verus!
