//! Planning of the optimised lottery queries: the SQL text and its bound
//! parameters, the query contexts, cache keys, and the reading of stored
//! winning numbers. The caller runs the planned queries.

use vstd::prelude::*;
use crate::clock::{format_instant, formatted_instant};
use crate::parse::{parse_u32, parse_u32_spec, split_char, split_spec, trim, trim_spec};
use crate::text::{contains_spec, decimal_spec, signed_decimal_spec, i64_to_decimal, owned, push_str, u64_to_decimal};

verus! {

/// A value bound to a query placeholder.
#[derive(Debug)]
pub enum SqlParam {
    Text(String),
    Int(i64),
}

/// A bound value as text or number.
pub type SqlParamView = (bool, Seq<char>, int);

/// The view of a bound value: text, or a number.
pub open spec fn param_view(p: SqlParam) -> SqlParamView {
    match p {
        SqlParam::Text(s) => (true, s@, 0),
        SqlParam::Int(i) => (false, Seq::empty(), i as int),
    }
}

/// The views of a list of bound values.
pub open spec fn params_view(s: Seq<SqlParam>) -> Seq<SqlParamView> {
    s.map_values(|p: SqlParam| param_view(p))
}

/// A text parameter.
pub open spec fn text_param(s: Seq<char>) -> SqlParamView {
    (true, s, 0)
}

/// A numeric parameter.
pub open spec fn int_param(i: int) -> SqlParamView {
    (false, Seq::empty(), i)
}

/// A parameter of a query context, as it is logged.
#[derive(Debug)]
pub enum QueryParamValue {
    Text(String),
    Int(i64),
    Null,
}

/// What a query is and how it may be run.
#[derive(Debug)]
pub struct QueryContext {
    pub query_type: String,
    pub parameters: Option<Vec<(String, QueryParamValue)>>,
    pub expected_row_count: Option<usize>,
    pub timeout_ms: Option<u64>,
    pub use_cache: bool,
    pub force_refresh: bool,
}

impl Default for QueryContext {
    /// An unknown query, cached, with a five-second timeout.
    fn default() -> (r: QueryContext)
        ensures
            r.query_type@ == "unknown"@,
            r.parameters is None,
            r.expected_row_count is None,
            r.timeout_ms == Some(5000u64),
            r.use_cache,
            !r.force_refresh,
    {
        QueryContext {
            query_type: owned("unknown"),
            parameters: None,
            expected_row_count: None,
            timeout_ms: Some(5000),
            use_cache: true,
            force_refresh: false,
        }
    }
}

/// A text parameter of a context, or null.
fn opt_text_param(v: &Option<String>) -> (r: QueryParamValue)
    ensures
        match v {
            Some(s) => r matches QueryParamValue::Text(t) && t@ == s@,
            None => r is Null,
        },
{
    match v {
        Some(s) => QueryParamValue::Text(s.clone()),
        None => QueryParamValue::Null,
    }
}

/// The start of every lottery-history query.
pub open spec fn history_base() -> Seq<char> {
    "\n                    SELECT\n                        id, draw_date, lottery_type, winning_numbers,\n                        bonus_number, jackpot_amount, created_at\n                    FROM lottery_draws\n                    WHERE 1=1\n                "@
}

/// The `n`th numbered placeholder.
pub open spec fn placeholder(n: nat) -> Seq<char> {
    "$"@ + decimal_spec(n)
}

/// `text` when `cond` holds, nothing otherwise.
pub open spec fn when(cond: bool, text: Seq<char>) -> Seq<char> {
    if cond { text } else { Seq::empty() }
}

/// One when `cond` holds, zero otherwise.
pub open spec fn one_if(cond: bool) -> nat {
    if cond { 1 } else { 0 }
}

/// The SQL of a lottery-history page: filters on the lottery type and the
/// date range where given, newest first, then a limit and an offset where
/// they are not zero, the placeholders numbered in that order.
pub open spec fn history_sql(has_type: bool, has_from: bool, has_to: bool, limit: u32, offset: u32) -> Seq<char> {
    let n1 = one_if(has_type);
    let n2 = n1 + one_if(has_from);
    let n3 = n2 + one_if(has_to);
    let n4 = n3 + one_if(limit > 0);
    let n5 = n4 + one_if(offset > 0);
    history_base() + when(has_type, " AND lottery_type = "@ + placeholder(n1))
        + when(has_from, " AND draw_date >= "@ + placeholder(n2))
        + when(has_to, " AND draw_date <= "@ + placeholder(n3)) + " ORDER BY draw_date DESC"@
        + when(limit > 0, " LIMIT "@ + placeholder(n4)) + when(offset > 0, " OFFSET "@ + placeholder(n5))
}

/// The value bound to each placeholder of a lottery-history query.
pub open spec fn history_params(
    lottery_type: Option<Seq<char>>,
    limit: u32,
    offset: u32,
    date_from: Option<Seq<char>>,
    date_to: Option<Seq<char>>,
) -> Seq<SqlParamView> {
    (match lottery_type { Some(t) => seq![text_param(t)], None => Seq::empty() })
        + (match date_from { Some(t) => seq![text_param(t)], None => Seq::empty() })
        + (match date_to { Some(t) => seq![text_param(t)], None => Seq::empty() })
        + (if limit > 0 { seq![int_param(limit as int)] } else { Seq::empty() })
        + (if offset > 0 { seq![int_param(offset as int)] } else { Seq::empty() })
}

/// A planned query: its SQL and the values of its placeholders in order.
#[derive(Debug)]
pub struct PlannedQuery {
    pub sql: String,
    pub params: Vec<SqlParam>,
}

/// The view of an optional string.
pub open spec fn opt_view(o: Option<String>) -> Option<Seq<char>> {
    match o {
        Some(s) => Some(s@),
        None => None,
    }
}

/// Appends a numbered placeholder.
fn push_placeholder(sql: &mut String, n: u64)
    ensures
        final(sql)@ == old(sql)@ + placeholder(n as nat),
{
    push_str(sql, "$");
    let d = u64_to_decimal(n);
    push_str(sql, d.as_str());
}

/// Appends a parameter.
fn push_param(params: &mut Vec<SqlParam>, p: SqlParam)
    ensures
        params_view(final(params)@) == params_view(old(params)@).push(param_view(p)),
{
    let ghost before = params@;
    params.push(p);
    assert(params_view(params@) =~= params_view(before).push(param_view(p)));
}

/// The query for a page of lottery history.
pub fn lottery_history_query(
    lottery_type: &Option<String>,
    limit: u32,
    offset: u32,
    date_from: &Option<String>,
    date_to: &Option<String>,
) -> (r: PlannedQuery)
    ensures
        r.sql@ == history_sql(lottery_type is Some, date_from is Some, date_to is Some, limit, offset),
        params_view(r.params@) == history_params(opt_view(*lottery_type), limit, offset, opt_view(*date_from), opt_view(*date_to)),
{
    let mut sql = owned("\n                    SELECT\n                        id, draw_date, lottery_type, winning_numbers,\n                        bonus_number, jackpot_amount, created_at\n                    FROM lottery_draws\n                    WHERE 1=1\n                ");
    let mut params: Vec<SqlParam> = Vec::new();
    let mut count: u64 = 0;
    assert(params_view(params@) =~= Seq::<SqlParamView>::empty());
    let ghost s0 = sql@;
    if let Some(lt) = lottery_type {
        count = count + 1;
        push_str(&mut sql, " AND lottery_type = ");
        push_placeholder(&mut sql, count);
        push_param(&mut params, SqlParam::Text(lt.clone()));
    }
    let ghost s1 = sql@;
    assert(s1 =~= s0 + when(lottery_type is Some, " AND lottery_type = "@ + placeholder(count as nat)));
    if let Some(df) = date_from {
        count = count + 1;
        push_str(&mut sql, " AND draw_date >= ");
        push_placeholder(&mut sql, count);
        push_param(&mut params, SqlParam::Text(df.clone()));
    }
    let ghost s2 = sql@;
    assert(s2 =~= s1 + when(date_from is Some, " AND draw_date >= "@ + placeholder(count as nat)));
    if let Some(dt) = date_to {
        count = count + 1;
        push_str(&mut sql, " AND draw_date <= ");
        push_placeholder(&mut sql, count);
        push_param(&mut params, SqlParam::Text(dt.clone()));
    }
    let ghost s3 = sql@;
    assert(s3 =~= s2 + when(date_to is Some, " AND draw_date <= "@ + placeholder(count as nat)));
    push_str(&mut sql, " ORDER BY draw_date DESC");
    let ghost s4 = sql@;
    if limit > 0 {
        count = count + 1;
        push_str(&mut sql, " LIMIT ");
        push_placeholder(&mut sql, count);
        push_param(&mut params, SqlParam::Int(limit as i64));
    }
    let ghost s5 = sql@;
    assert(s5 =~= s4 + when(limit > 0, " LIMIT "@ + placeholder(count as nat)));
    if offset > 0 {
        count = count + 1;
        push_str(&mut sql, " OFFSET ");
        push_placeholder(&mut sql, count);
        push_param(&mut params, SqlParam::Int(offset as i64));
    }
    assert(sql@ =~= s5 + when(offset > 0, " OFFSET "@ + placeholder(count as nat)));
    assert(sql@ =~= history_sql(lottery_type is Some, date_from is Some, date_to is Some, limit, offset));
    assert(params_view(params@) =~= history_params(opt_view(*lottery_type), limit, offset, opt_view(*date_from), opt_view(*date_to)));
    PlannedQuery { sql, params }
}

/// The numbers of a stored draw: the comma-separated pieces that, trimmed,
/// read as unsigned 32-bit numbers; other pieces are skipped.
pub open spec fn numbers_of(pieces: Seq<Seq<char>>) -> Seq<u32>
    decreases pieces.len(),
{
    if pieces.len() == 0 {
        Seq::empty()
    } else {
        let rest = numbers_of(pieces.drop_last());
        match parse_u32_spec(trim_spec(pieces.last())) {
            Some(n) => rest.push(n),
            None => rest,
        }
    }
}

/// Reads the winning numbers stored as comma-separated text.
pub fn parse_winning_numbers(text: &str) -> (r: Vec<u32>)
    ensures
        r@ == numbers_of(split_spec(text@, ',')),
{
    let pieces = split_char(text, ',');
    let ghost views = pieces@.map_values(|p: String| p@);
    let mut out: Vec<u32> = Vec::new();
    let mut i: usize = 0;
    while i < pieces.len()
        invariant
            i <= pieces@.len(),
            views == pieces@.map_values(|p: String| p@),
            out@ == numbers_of(views.subrange(0, i as int)),
        decreases pieces@.len() - i,
    {
        assert(views.subrange(0, i + 1).drop_last() =~= views.subrange(0, i as int));
        let t = trim(pieces[i].as_str());
        if let Some(n) = parse_u32(t.as_str()) {
            out.push(n);
        }
        i = i + 1;
    }
    assert(views.subrange(0, i as int) =~= views);
    out
}

/// The SQL of the hot-numbers query, with or without a lottery-type filter.
pub open spec fn hot_numbers_sql(has_type: bool) -> Seq<char> {
    if has_type {
        "\n                        SELECT\n                            number, lottery_type, frequency, last_drawn_at, draw_count\n                        FROM number_frequency\n                        WHERE lottery_type = $1\n                            AND last_drawn_at >= $2\n                        ORDER BY frequency DESC, last_drawn_at DESC\n                        LIMIT 50\n                    "@
    } else {
        "\n                        SELECT\n                            number, lottery_type, frequency, last_drawn_at, draw_count\n                        FROM number_frequency\n                        WHERE last_drawn_at >= $1\n                        ORDER BY frequency DESC, last_drawn_at DESC\n                        LIMIT 50\n                    "@
    }
}

/// Milliseconds in a day.
pub const MILLIS_PER_DAY: i64 = 86400000;

/// The instant `days` days before `now_ms`.
pub open spec fn cutoff_millis(now_ms: i64, days: u32) -> int {
    now_ms - days * MILLIS_PER_DAY
}

/// The query for the most frequent recent numbers: the cutoff instant,
/// `days` days before `now_ms`, is bound as `%Y-%m-%d %H:%M:%S` text after
/// the lottery type when one is given. `None` when the cutoff is outside
/// chrono's range.
pub fn hot_numbers_query(lottery_type: &Option<String>, days: u32, now_ms: i64) -> (r: Option<PlannedQuery>)
    requires
        cutoff_millis(now_ms, days) >= i64::MIN,
    ensures
        match r {
            Some(q) => {
                &&& q.sql@ == hot_numbers_sql(lottery_type is Some)
                &&& formatted_instant(cutoff_millis(now_ms, days) as i64, "%Y-%m-%d %H:%M:%S"@) matches Some(c)
                &&& params_view(q.params@) == (match opt_view(*lottery_type) {
                    Some(t) => seq![text_param(t), text_param(c)],
                    None => seq![text_param(c)],
                })
            },
            None => formatted_instant(cutoff_millis(now_ms, days) as i64, "%Y-%m-%d %H:%M:%S"@) is None,
        },
{
    let cutoff: i64 = now_ms - days as i64 * MILLIS_PER_DAY;
    let text = match format_instant(cutoff, "%Y-%m-%d %H:%M:%S") {
        Some(t) => t,
        None => return None,
    };
    let mut params: Vec<SqlParam> = Vec::new();
    assert(params_view(params@) =~= Seq::<SqlParamView>::empty());
    let sql = match lottery_type {
        Some(lt) => {
            push_param(&mut params, SqlParam::Text(lt.clone()));
            owned("\n                        SELECT\n                            number, lottery_type, frequency, last_drawn_at, draw_count\n                        FROM number_frequency\n                        WHERE lottery_type = $1\n                            AND last_drawn_at >= $2\n                        ORDER BY frequency DESC, last_drawn_at DESC\n                        LIMIT 50\n                    ")
        },
        None => owned("\n                        SELECT\n                            number, lottery_type, frequency, last_drawn_at, draw_count\n                        FROM number_frequency\n                        WHERE last_drawn_at >= $1\n                        ORDER BY frequency DESC, last_drawn_at DESC\n                        LIMIT 50\n                    "),
    };
    push_param(&mut params, SqlParam::Text(text));
    Some(PlannedQuery { sql, params })
}

/// Runs the lottery queries: decides on caching and slow-query logging.
pub struct QueryOptimizer {
    slow_query_threshold_ms: u64,
    cache_enabled: bool,
}

impl QueryOptimizer {
    /// The threshold above which a query is slow.
    pub closed spec fn threshold(&self) -> u64 {
        self.slow_query_threshold_ms
    }

    /// Whether results may come from the cache.
    pub closed spec fn caching(&self) -> bool {
        self.cache_enabled
    }

    /// An optimiser with caching on and a 100 ms slow-query threshold.
    pub fn new() -> (r: QueryOptimizer)
        ensures
            r.threshold() == 100,
            r.caching(),
    {
        QueryOptimizer { slow_query_threshold_ms: 100, cache_enabled: true }
    }

    /// Whether a query should look in the cache first.
    pub fn should_check_cache(&self, context: &QueryContext) -> (r: bool)
        ensures
            r == (context.use_cache && !context.force_refresh && self.caching()),
    {
        context.use_cache && !context.force_refresh && self.cache_enabled
    }

    /// Whether a query that took `elapsed_ms` is slow.
    pub fn is_slow_query(&self, elapsed_ms: u64) -> (r: bool)
        ensures
            r == (elapsed_ms > self.threshold()),
    {
        elapsed_ms > self.slow_query_threshold_ms
    }

    /// The context of a lottery-history query.
    pub fn lottery_history_context(
        &self,
        lottery_type: &Option<String>,
        limit: u32,
        offset: u32,
        date_from: &Option<String>,
        date_to: &Option<String>,
    ) -> (r: QueryContext)
        ensures
            r.query_type@ == "lottery_history"@,
            r.parameters matches Some(p) && p@.len() == 5 && p@[0].0@ == "lottery_type"@
                && p@[1].0@ == "limit"@ && p@[1].1 == QueryParamValue::Int(limit as i64)
                && p@[2].0@ == "offset"@ && p@[2].1 == QueryParamValue::Int(offset as i64)
                && p@[3].0@ == "date_from"@ && p@[4].0@ == "date_to"@,
            r.expected_row_count == Some(limit as usize),
            r.timeout_ms == Some(2000u64),
            r.use_cache,
            !r.force_refresh,
    {
        let mut p: Vec<(String, QueryParamValue)> = Vec::new();
        p.push((owned("lottery_type"), opt_text_param(lottery_type)));
        p.push((owned("limit"), QueryParamValue::Int(limit as i64)));
        p.push((owned("offset"), QueryParamValue::Int(offset as i64)));
        p.push((owned("date_from"), opt_text_param(date_from)));
        p.push((owned("date_to"), opt_text_param(date_to)));
        QueryContext {
            query_type: owned("lottery_history"),
            parameters: Some(p),
            expected_row_count: Some(limit as usize),
            timeout_ms: Some(2000),
            use_cache: true,
            force_refresh: false,
        }
    }

    /// The context of a hot-numbers query.
    pub fn hot_numbers_context(&self, lottery_type: &Option<String>, days: u32) -> (r: QueryContext)
        ensures
            r.query_type@ == "hot_numbers"@,
            r.parameters matches Some(p) && p@.len() == 2 && p@[0].0@ == "lottery_type"@
                && p@[1].0@ == "days"@ && p@[1].1 == QueryParamValue::Int(days as i64),
            r.expected_row_count == Some(100usize),
            r.timeout_ms == Some(1000u64),
            r.use_cache,
            !r.force_refresh,
    {
        let mut p: Vec<(String, QueryParamValue)> = Vec::new();
        p.push((owned("lottery_type"), opt_text_param(lottery_type)));
        p.push((owned("days"), QueryParamValue::Int(days as i64)));
        QueryContext {
            query_type: owned("hot_numbers"),
            parameters: Some(p),
            expected_row_count: Some(100),
            timeout_ms: Some(1000),
            use_cache: true,
            force_refresh: false,
        }
    }
}

/// The date range of a lottery-history query keeps the draws between its
/// ends: the start date is bound to a placeholder that draw dates must be
/// at or after, and the end date to one they must be at or before.
pub proof fn lemma_history_date_range(
    lottery_type: Option<Seq<char>>,
    limit: u32,
    offset: u32,
    date_from: Option<Seq<char>>,
    date_to: Option<Seq<char>>,
)
    ensures
        ({
            let sql = history_sql(lottery_type is Some, date_from is Some, date_to is Some, limit, offset);
            let params = history_params(lottery_type, limit, offset, date_from, date_to);
            &&& (date_from matches Some(d) ==> exists|k: nat| 1 <= k <= params.len()
                && params[k - 1] == text_param(d)
                && #[trigger] contains_spec(sql, " AND draw_date >= "@ + placeholder(k)))
            &&& (date_to matches Some(d) ==> exists|k: nat| 1 <= k <= params.len()
                && params[k - 1] == text_param(d)
                && #[trigger] contains_spec(sql, " AND draw_date <= "@ + placeholder(k)))
        }),
{
    let has_type = lottery_type is Some;
    let has_from = date_from is Some;
    let has_to = date_to is Some;
    let sql = history_sql(has_type, has_from, has_to, limit, offset);
    let params = history_params(lottery_type, limit, offset, date_from, date_to);
    let n1 = one_if(has_type);
    let n2 = n1 + one_if(has_from);
    let n3 = n2 + one_if(has_to);
    let pa = match lottery_type { Some(t) => seq![text_param(t)], None => Seq::<SqlParamView>::empty() };
    let pb = match date_from { Some(t) => seq![text_param(t)], None => Seq::<SqlParamView>::empty() };
    let pc = match date_to { Some(t) => seq![text_param(t)], None => Seq::<SqlParamView>::empty() };
    let pd = if limit > 0 { seq![int_param(limit as int)] } else { Seq::<SqlParamView>::empty() };
    let pe = if offset > 0 { seq![int_param(offset as int)] } else { Seq::<SqlParamView>::empty() };
    assert(params == pa + pb + pc + pd + pe);
    let s0 = history_base() + when(has_type, " AND lottery_type = "@ + placeholder(n1));
    let from_part = when(has_from, " AND draw_date >= "@ + placeholder(n2));
    let to_part = when(has_to, " AND draw_date <= "@ + placeholder(n3));
    let tail = " ORDER BY draw_date DESC"@ + when(limit > 0, " LIMIT "@ + placeholder(n3 + one_if(limit > 0)))
        + when(offset > 0, " OFFSET "@ + placeholder(n3 + one_if(limit > 0) + one_if(offset > 0)));
    assert(sql =~= s0 + from_part + to_part + tail);
    if let Some(d) = date_from {
        let pat = " AND draw_date >= "@ + placeholder(n2);
        let i = s0.len() as int;
        assert(sql.subrange(i, i + pat.len()) =~= pat);
        assert(contains_spec(sql, pat));
        assert((pa + pb + pc + pd + pe)[n2 - 1] == text_param(d));
    }
    if let Some(d) = date_to {
        let pat = " AND draw_date <= "@ + placeholder(n3);
        let i = (s0.len() + from_part.len()) as int;
        assert(sql.subrange(i, i + pat.len()) =~= pat);
        assert(contains_spec(sql, pat));
        assert((pa + pb + pc + pd + pe)[n3 - 1] == text_param(d));
    }
}

/// The cutoff of a hot-numbers query lies in the past, and reaches further
/// back the more days are asked for.
pub proof fn lemma_cutoff_reaches_back(now_ms: i64, d1: u32, d2: u32)
    requires
        d1 <= d2,
    ensures
        cutoff_millis(now_ms, d2) <= cutoff_millis(now_ms, d1),
        cutoff_millis(now_ms, d1) <= now_ms,
        cutoff_millis(now_ms, d1) - cutoff_millis(now_ms, d2) == (d2 - d1) * MILLIS_PER_DAY,
{
    assert(d1 * MILLIS_PER_DAY <= d2 * MILLIS_PER_DAY) by (nonlinear_arith)
        requires
            d1 <= d2,
    ;
    assert((d2 - d1) * MILLIS_PER_DAY == d2 * MILLIS_PER_DAY - d1 * MILLIS_PER_DAY) by (nonlinear_arith);
}

} // verus!
