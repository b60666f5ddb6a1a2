use vstd::prelude::*;

verus! {

/// Number of entries of the high-score table.
pub const NUMBER_HIGH_SCORES: usize = 10;

/// Most characters a player's name may have.
pub const MAX_NAME_LENGTH: usize = 10;

/// Relies on chrono's `Utc::now`: the current time, as whole seconds since the
/// Unix epoch (`DateTime::timestamp`).
#[verifier::external_body]
fn now_timestamp() -> (r: i64) {
    chrono::Utc::now().timestamp()
}

/// Relies on `String::reserve_exact`: it changes the capacity, never the
/// characters; it panics only when the capacity would overflow.
#[verifier::external_body]
fn reserve_exact(s: &mut String, additional: usize)
    requires
        4 * old(s)@.len() + additional <= isize::MAX,
    ensures
        final(s)@ == old(s)@,
{
    s.reserve_exact(additional)
}

/// Relies on `String::push`: the character is appended.
#[verifier::external_body]
pub(crate) fn push_char(s: &mut String, c: char)
    ensures
        final(s)@ == old(s)@.push(c),
{
    s.push(c)
}

/// Relies on `String::pop`: the last character is taken off and returned,
/// `None` for an empty string.
#[verifier::external_body]
pub(crate) fn pop_char(s: &mut String) -> (r: Option<char>)
    ensures
        old(s)@.len() == 0 ==> r is None && final(s)@ == old(s)@,
        old(s)@.len() > 0 ==> r == Some(old(s)@.last()) && final(s)@ == old(s)@.drop_last(),
{
    s.pop()
}

/// An entry of the high-score table.
#[derive(Clone, Debug)]
pub struct Score {
    player: String,
    score: i32,
    timestamp: i64,
}

impl Score {
    pub closed spec fn name(&self) -> Seq<char> {
        self.player@
    }

    pub closed spec fn points(&self) -> i32 {
        self.score
    }

    pub closed spec fn time(&self) -> i64 {
        self.timestamp
    }

    pub fn builder() -> (r: ScoreBuilder)
        ensures
            r.name() == "default"@,
            r.points() == 0,
    {
        ScoreBuilder::default()
    }

    pub fn player(&self) -> (r: &str)
        ensures
            r@ == self.name(),
    {
        self.player.as_str()
    }

    pub fn score(&self) -> (r: i32)
        ensures
            r == self.points(),
    {
        self.score
    }

    /// Seconds since the Unix epoch at which the score was made.
    pub fn timestamp(&self) -> (r: i64)
        ensures
            r == self.time(),
    {
        self.timestamp
    }
}

/// Builds a `Score`, starting from the name "default", no points and the
/// current time.
pub struct ScoreBuilder {
    player: String,
    score: i32,
    timestamp: i64,
}

impl ScoreBuilder {
    pub closed spec fn name(&self) -> Seq<char> {
        self.player@
    }

    pub closed spec fn points(&self) -> i32 {
        self.score
    }

    pub closed spec fn time(&self) -> i64 {
        self.timestamp
    }

    pub fn default() -> (r: Self)
        ensures
            r.name() == "default"@,
            r.points() == 0,
    {
        ScoreBuilder { player: "default".to_owned(), score: 0, timestamp: now_timestamp() }
    }

    pub fn timestamp(self, timestamp: i64) -> (r: Self)
        ensures
            r.name() == self.name(),
            r.points() == self.points(),
            r.time() == timestamp,
    {
        ScoreBuilder { timestamp, ..self }
    }

    pub fn player(self, player: &str) -> (r: Self)
        ensures
            r.name() == player@,
            r.points() == self.points(),
            r.time() == self.time(),
    {
        ScoreBuilder { player: player.to_owned(), ..self }
    }

    pub fn score(self, score: i32) -> (r: Self)
        ensures
            r.name() == self.name(),
            r.points() == score,
            r.time() == self.time(),
    {
        ScoreBuilder { score, ..self }
    }

    pub fn build(self) -> (r: Score)
        ensures
            r.name() == self.name(),
            r.points() == self.points(),
            r.time() == self.time(),
    {
        Score { player: self.player, score: self.score, timestamp: self.timestamp }
    }
}

/// Scores in descending order.
pub open spec fn sorted_desc(s: Seq<Score>) -> bool {
    forall|i: int, j: int| 0 <= i < j < s.len() ==> s[i].points() >= s[j].points()
}

/// `k` is the rank of `score` in `s`: the entries before it are at least as
/// high, those from it on are lower.
pub open spec fn is_rank(s: Seq<Score>, score: i32, k: int) -> bool {
    &&& 0 <= k <= s.len()
    &&& forall|i: int| 0 <= i < k ==> #[trigger] s[i].points() >= score
    &&& forall|i: int| k <= i < s.len() ==> #[trigger] s[i].points() < score
}

/// The table with its last entry dropped and `entry` put at `rank`.
pub open spec fn placed(s: Seq<Score>, rank: int, entry: Score) -> Seq<Score> {
    let kept = if s.len() > 0 {
        s.drop_last()
    } else {
        s
    };
    kept.insert(rank, entry)
}

/// The rank at which `score` enters a table sorted in descending order: the
/// position of the first entry lower than it, `None` when there is none.
pub fn check_score(score: i32, scores: &Vec<Score>) -> (r: Option<usize>)
    ensures
        r matches Some(k) ==> k < scores@.len(),
        sorted_desc(scores@) ==> match r {
            Some(k) => is_rank(scores@, score, k as int),
            None => is_rank(scores@, score, scores@.len() as int),
        },
{
    let mut low: usize = 0;
    let mut high: usize = scores.len();
    while low < high
        invariant
            low <= high <= scores@.len(),
            sorted_desc(scores@) ==> forall|i: int| 0 <= i < low ==> #[trigger] scores@[i].points() >= score,
            sorted_desc(scores@) ==> forall|i: int|
                high <= i < scores@.len() ==> #[trigger] scores@[i].points() < score,
        decreases high - low,
    {
        let middle = low + (high - low) / 2;
        if scores[middle].score() >= score {
            low = middle + 1;
        } else {
            high = middle;
        }
    }
    if low < scores.len() {
        Some(low)
    } else {
        None
    }
}

/// Drops the lowest entry and puts `score` at `rank`, when the rank is within
/// the table's size.
pub fn update_scores(rank: usize, score: Score, scores: &mut Vec<Score>)
    requires
        rank <= NUMBER_HIGH_SCORES ==> rank == 0 || rank < old(scores)@.len(),
    ensures
        rank <= NUMBER_HIGH_SCORES ==> final(scores)@ == placed(old(scores)@, rank as int, score),
        rank > NUMBER_HIGH_SCORES ==> final(scores)@ == old(scores)@,
{
    if rank <= NUMBER_HIGH_SCORES {
        scores.pop();
        scores.insert(rank, score);
    }
}

/// The table read back from storage brought to its size: cut after
/// `NUMBER_HIGH_SCORES` entries, or filled up with default entries.
pub fn normalize_scores(scores: Vec<Score>) -> (r: Vec<Score>)
    ensures
        r@.len() == NUMBER_HIGH_SCORES,
        forall|i: int| 0 <= i < scores@.len() && i < NUMBER_HIGH_SCORES ==> r@[i] == scores@[i],
        forall|i: int|
            scores@.len() <= i < NUMBER_HIGH_SCORES ==> (#[trigger] r@[i]).name() == "default"@
                && r@[i].points() == 0,
{
    let mut r = scores;
    r.truncate(NUMBER_HIGH_SCORES);
    while r.len() < NUMBER_HIGH_SCORES
        invariant
            r@.len() <= NUMBER_HIGH_SCORES,
            forall|i: int| 0 <= i < scores@.len() && i < r@.len() ==> r@[i] == scores@[i],
            r@.len() < NUMBER_HIGH_SCORES ==> r@.len() >= scores@.len(),
            forall|i: int|
                scores@.len() <= i < r@.len() ==> (#[trigger] r@[i]).name() == "default"@
                    && r@[i].points() == 0,
        decreases NUMBER_HIGH_SCORES - r@.len(),
    {
        r.push(ScoreBuilder::default().build());
    }
    r
}

/// `entry`, made for `name` with `score`, went in at `rank`: the rank of the
/// score where the table is sorted, and within the table's size.
pub open spec fn recorded_at(
    before: Seq<Score>,
    after: Seq<Score>,
    name: Seq<char>,
    score: i32,
    rank: int,
    entry: Score,
) -> bool {
    &&& 0 <= rank < before.len()
    &&& sorted_desc(before) ==> is_rank(before, score, rank)
    &&& entry.name() == name
    &&& entry.points() == score
    &&& if rank <= NUMBER_HIGH_SCORES {
        after == placed(before, rank, entry)
    } else {
        after == before
    }
}

/// Enters a new score for `name` into the table when it ranks; whether it did.
pub fn record_score(scores: &mut Vec<Score>, name: &str, score: i32) -> (r: bool)
    ensures
        !r ==> final(scores)@ == old(scores)@,
        sorted_desc(old(scores)@) ==> (r <==> !is_rank(old(scores)@, score, old(scores)@.len() as int)),
        r ==> exists|rank: int, entry: Score|
            #[trigger] recorded_at(old(scores)@, final(scores)@, name@, score, rank, entry),
{
    match check_score(score, scores) {
        Some(rank) => {
            let entry = ScoreBuilder::default().player(name).score(score).build();
            let ghost e = entry;
            update_scores(rank, entry, scores);
            proof {
                let k = rank as int;
                if sorted_desc(old(scores)@) {
                    assert(old(scores)@[k].points() < score);
                }
                assert(recorded_at(old(scores)@, scores@, name@, score, k, e));
            }
            true
        },
        None => false,
    }
}

/// An empty name, with room for the longest one allowed.
pub fn create_empty_name() -> (r: String)
    ensures
        r@.len() == 0,
{
    let mut s = String::new();
    reserve_exact(&mut s, MAX_NAME_LENGTH);
    s
}

} // verus!
