use vstd::prelude::*;

use crate::clock::{rfc3339_or_epoch, utc_now};
use crate::text::copy_string;
use std::collections::HashMap;
use vstd::std_specs::iter::IteratorSpec;

verus! {

broadcast use {vstd::std_specs::vec::group_vec_axioms, vstd::std_specs::hash::group_hash_axioms};

/// The largest number of output bytes kept for one running session.
pub const MAX_SESSION_OUTPUT_BYTES: usize = 262144;

/// What a piece of agent run output shows.
#[derive(Clone, Copy, Debug, PartialEq, Eq, Structural)]
pub enum AgentRunOutputKind {
    ModelMessage,
    Reasoning,
    ToolCall,
    FileChange,
    Error,
    System,
    Legacy,
}

/// One piece of output of a running agent process.
///
/// `metadata` holds the piece's JSON metadata as its serialized text.
#[derive(Debug)]
pub struct AgentRunOutputPiece {
    pub sequence: u64,
    pub timestamp: String,
    pub kind: AgentRunOutputKind,
    pub source: String,
    pub item_id: Option<String>,
    pub title: String,
    pub body: String,
    pub metadata: String,
}

/// The mathematical value of an output piece.
pub struct PieceModel {
    pub sequence: u64,
    pub timestamp: Seq<char>,
    pub kind: AgentRunOutputKind,
    pub source: Seq<char>,
    pub item_id: Option<Seq<char>>,
    pub title: Seq<char>,
    pub body: Seq<char>,
    pub metadata: Seq<char>,
}

impl View for AgentRunOutputPiece {
    type V = PieceModel;

    open spec fn view(&self) -> PieceModel {
        PieceModel {
            sequence: self.sequence,
            timestamp: self.timestamp@,
            kind: self.kind,
            source: self.source@,
            item_id: match self.item_id {
                Some(s) => Some(s@),
                None => None,
            },
            title: self.title@,
            body: self.body@,
            metadata: self.metadata@,
        }
    }
}

/// The number of UTF-8 bytes of a text, as `str::len` reports it.
pub open spec fn byte_len(s: Seq<char>) -> nat {
    (vstd::utf8::encode_utf8(s).len() as usize) as nat
}

proof fn lemma_saturate_add(x: nat, y: nat)
    ensures
        saturate((saturate(x) + y) as nat) == saturate(x + y),
{
}

/// The size a piece counts for in the output budget: the UTF-8 bytes of its
/// timestamp, source, item id, title, body and metadata text.
pub open spec fn piece_size(p: PieceModel) -> nat {
    byte_len(p.timestamp) + byte_len(p.source) + match p.item_id {
        Some(s) => byte_len(s),
        None => 0,
    } + byte_len(p.title) + byte_len(p.body) + byte_len(p.metadata)
}

/// The total size of a sequence of pieces.
pub open spec fn pieces_size(ps: Seq<PieceModel>) -> nat
    decreases ps.len(),
{
    if ps.len() == 0 {
        0
    } else {
        pieces_size(ps.subrange(0, ps.len() - 1)) + piece_size(ps[ps.len() - 1])
    }
}

/// `n`, or `usize::MAX` when `n` does not fit in a `usize`.
pub open spec fn saturate(n: nat) -> usize {
    if n <= usize::MAX {
        n as usize
    } else {
        usize::MAX
    }
}

/// The pieces kept under a byte budget: the oldest pieces are dropped while
/// more than one is left and the total, as a `usize` count, is over the
/// budget.
pub open spec fn trimmed(ps: Seq<PieceModel>, max_bytes: nat) -> Seq<PieceModel>
    decreases ps.len(),
{
    if ps.len() > 1 && saturate(pieces_size(ps)) > max_bytes {
        trimmed(ps.drop_first(), max_bytes)
    } else {
        ps
    }
}

/// The mathematical values of a sequence of pieces.
pub open spec fn pieces_view(v: Seq<AgentRunOutputPiece>) -> Seq<PieceModel> {
    v.map_values(|p: AgentRunOutputPiece| p@)
}

fn sat_add(a: usize, b: usize) -> (r: usize)
    ensures
        r == saturate((a + b) as nat),
{
    if a > usize::MAX - b {
        usize::MAX
    } else {
        a + b
    }
}

/// The size a piece counts for in the output budget (saturating at `usize::MAX`).
pub fn output_piece_size(piece: &AgentRunOutputPiece) -> (n: usize)
    ensures
        n == saturate(piece_size(piece@)),
{
    let mut n = piece.timestamp.as_str().len();
    let ghost p = piece@;
    proof {
        lemma_saturate_add(byte_len(p.timestamp), byte_len(p.source));
        let a = byte_len(p.timestamp) + byte_len(p.source);
        let b = match p.item_id {
            Some(s) => byte_len(s),
            None => 0,
        };
        lemma_saturate_add(a, b);
        lemma_saturate_add(a + b, byte_len(p.title));
        lemma_saturate_add(a + b + byte_len(p.title), byte_len(p.body));
        lemma_saturate_add(a + b + byte_len(p.title) + byte_len(p.body), byte_len(p.metadata));
    }
    n = sat_add(n, piece.source.as_str().len());
    match &piece.item_id {
        Some(s) => {
            n = sat_add(n, s.as_str().len());
        },
        None => {},
    }
    n = sat_add(n, piece.title.as_str().len());
    n = sat_add(n, piece.body.as_str().len());
    n = sat_add(n, piece.metadata.as_str().len());
    n
}

/// The total size of `pieces` (saturating at `usize::MAX`).
pub fn output_pieces_size(pieces: &Vec<AgentRunOutputPiece>) -> (n: usize)
    ensures
        n == saturate(pieces_size(pieces_view(pieces@))),
{
    let mut n: usize = 0;
    let mut i: usize = 0;
    while i < pieces.len()
        invariant
            i <= pieces.len(),
            n == saturate(pieces_size(pieces_view(pieces@).take(i as int))),
        decreases pieces.len() - i,
    {
        proof {
            let t = pieces_view(pieces@).take(i + 1);
            assert(t.subrange(0, i as int) =~= pieces_view(pieces@).take(i as int));
            assert(t[i as int] == pieces@[i as int]@);
        }
        let k = output_piece_size(&pieces[i]);
        proof {
            lemma_saturate_add(pieces_size(pieces_view(pieces@).take(i as int)), piece_size(pieces@[i as int]@));
        }
        n = sat_add(n, k);
        i = i + 1;
    }
    assert(pieces_view(pieces@).take(pieces.len() as int) =~= pieces_view(pieces@));
    n
}

/// Drops the oldest pieces while more than one is left and the total size is
/// over `max_bytes`.
pub fn trim_output_pieces(pieces: &mut Vec<AgentRunOutputPiece>, max_bytes: usize)
    ensures
        pieces_view(final(pieces)@) == trimmed(pieces_view(old(pieces)@), max_bytes as nat),
{
    while pieces.len() > 1 && output_pieces_size(pieces) > max_bytes
        invariant
            trimmed(pieces_view(pieces@), max_bytes as nat) == trimmed(
                pieces_view(old(pieces)@),
                max_bytes as nat,
            ),
        decreases pieces.len(),
    {
        let ghost before = pieces@;
        pieces.remove(0);
        assert(pieces_view(pieces@) =~= pieces_view(before).drop_first());
    }
}

/// Whether the pieces from index `k` on are kept: at most one is left, or
/// their total (as a `usize` count) is within the budget.
pub open spec fn fits_from(ps: Seq<PieceModel>, k: int, max_bytes: nat) -> bool {
    ps.len() - k <= 1 || saturate(pieces_size(ps.skip(k))) <= max_bytes
}

/// Law: trimming drops exactly the oldest pieces before the least index `k`
/// from which the rest fits: as few as possible, never all of them.
pub proof fn lemma_trimmed_least_index(ps: Seq<PieceModel>, max_bytes: nat) -> (k: int)
    ensures
        0 <= k <= ps.len(),
        trimmed(ps, max_bytes) == ps.skip(k),
        fits_from(ps, k, max_bytes),
        forall|j: int| 0 <= j < k ==> !fits_from(ps, j, max_bytes),
    decreases ps.len(),
{
    if ps.len() > 1 && saturate(pieces_size(ps)) > max_bytes {
        let t = ps.drop_first();
        let k1 = lemma_trimmed_least_index(t, max_bytes);
        assert(t.skip(k1) =~= ps.skip(k1 + 1));
        assert forall|j: int| 0 <= j < k1 + 1 implies !fits_from(ps, j, max_bytes) by {
            if j == 0 {
                assert(ps.skip(0) =~= ps);
            } else {
                assert(t.skip(j - 1) =~= ps.skip(j));
                assert(!fits_from(t, j - 1, max_bytes));
            }
        }
        k1 + 1
    } else {
        assert(ps.skip(0) =~= ps);
        0
    }
}

/// Law: trimming keeps a suffix of the pieces, never drops the newest piece,
/// and leaves the total within the budget unless a single piece is left.
pub proof fn lemma_trimmed_shape(ps: Seq<PieceModel>, max_bytes: nat)
    ensures
        trimmed(ps, max_bytes).len() <= ps.len(),
        trimmed(ps, max_bytes) == ps.subrange(ps.len() - trimmed(ps, max_bytes).len(), ps.len() as int),
        ps.len() > 0 ==> trimmed(ps, max_bytes).len() > 0,
        trimmed(ps, max_bytes).len() > 1 ==> saturate(pieces_size(trimmed(ps, max_bytes))) <= max_bytes,
        trimmed(ps, max_bytes).len() > 1 && max_bytes < usize::MAX ==> pieces_size(trimmed(ps, max_bytes))
            <= max_bytes,
    decreases ps.len(),
{
    if ps.len() > 1 && saturate(pieces_size(ps)) > max_bytes {
        lemma_trimmed_shape(ps.drop_first(), max_bytes);
        let t = trimmed(ps.drop_first(), max_bytes);
        assert(ps.drop_first().subrange(ps.len() - 1 - t.len(), ps.len() - 1) =~= ps.subrange(
            ps.len() - t.len(),
            ps.len() as int,
        ));
    } else {
        assert(ps.subrange(0, ps.len() as int) =~= ps);
    }
}

} // verus!

verus! {

/// What is known of an agent process when it starts.
#[derive(Debug)]
pub struct ProcessSessionStart {
    pub run_id: i64,
    pub project_name: String,
    pub tool_name: String,
    pub command: String,
    pub working_dir: String,
}

/// A running agent process and the output it produced so far.
#[derive(Debug)]
pub struct ProcessSessionView {
    pub run_id: i64,
    pub project_name: String,
    pub tool_name: String,
    pub command: String,
    pub working_dir: String,
    pub process_id: Option<i64>,
    pub output: Vec<AgentRunOutputPiece>,
    pub started_at: String,
    pub updated_at: String,
}

/// The mathematical value of a session.
pub struct SessionModel {
    pub run_id: i64,
    pub project_name: Seq<char>,
    pub tool_name: Seq<char>,
    pub command: Seq<char>,
    pub working_dir: Seq<char>,
    pub process_id: Option<i64>,
    pub output: Seq<PieceModel>,
    pub started_at: Seq<char>,
    pub updated_at: Seq<char>,
}

impl View for ProcessSessionView {
    type V = SessionModel;

    open spec fn view(&self) -> SessionModel {
        SessionModel {
            run_id: self.run_id,
            project_name: self.project_name@,
            tool_name: self.tool_name@,
            command: self.command@,
            working_dir: self.working_dir@,
            process_id: self.process_id,
            output: pieces_view(self.output@),
            started_at: self.started_at@,
            updated_at: self.updated_at@,
        }
    }
}

/// The mathematical values of a sequence of sessions.
pub open spec fn sessions_view(v: Seq<ProcessSessionView>) -> Seq<SessionModel> {
    v.map_values(|s: ProcessSessionView| s@)
}

/// Sessions listed in strictly increasing run id order.
pub open spec fn sorted_by_run_id(s: Seq<SessionModel>) -> bool {
    forall|i: int, j: int| 0 <= i < j < s.len() ==> s[i].run_id < s[j].run_id
}

/// The sessions of `s` by run id.
pub open spec fn session_map(s: Seq<SessionModel>) -> Map<i64, SessionModel> {
    Map::new(
        |id: i64| exists|i: int| 0 <= i < s.len() && s[i].run_id == id,
        |id: i64| s[choose|i: int| 0 <= i < s.len() && s[i].run_id == id],
    )
}

/// `s` lists, in increasing run id order, exactly the sessions of `m`.
pub open spec fn lists_exactly(s: Seq<SessionModel>, m: Map<i64, SessionModel>) -> bool {
    &&& sorted_by_run_id(s)
    &&& session_map(s) == m
}

/// The sessions of `m` that belong to the project named `project`.
pub open spec fn sessions_of_project(m: Map<i64, SessionModel>, project: Seq<char>) -> Map<i64, SessionModel> {
    m.restrict(m.dom().filter(|id: i64| m[id].project_name == project))
}

/// A fresh session for `start`, with no output, started and updated at `now`.
pub open spec fn started_session(start: ProcessSessionStart, now: Seq<char>) -> SessionModel {
    SessionModel {
        run_id: start.run_id,
        project_name: start.project_name@,
        tool_name: start.tool_name@,
        command: start.command@,
        working_dir: start.working_dir@,
        process_id: None,
        output: Seq::empty(),
        started_at: now,
        updated_at: now,
    }
}

/// In a sorted list, the session at index `i` is the one the map gives for its run id.
pub proof fn lemma_session_map_index(s: Seq<SessionModel>, i: int)
    requires
        sorted_by_run_id(s),
        0 <= i < s.len(),
    ensures
        session_map(s).dom().contains(s[i].run_id),
        session_map(s)[s[i].run_id] == s[i],
{
    let id = s[i].run_id;
    assert(exists|k: int| 0 <= k < s.len() && s[k].run_id == id);
    let k = choose|k: int| 0 <= k < s.len() && s[k].run_id == id;
    if k != i {
        if k < i {
            assert(s[k].run_id < s[i].run_id);
        } else {
            assert(s[i].run_id < s[k].run_id);
        }
    }
}

fn copy_piece(p: &AgentRunOutputPiece) -> (r: AgentRunOutputPiece)
    ensures
        r@ == p@,
{
    AgentRunOutputPiece {
        sequence: p.sequence,
        timestamp: copy_string(&p.timestamp),
        kind: p.kind,
        source: copy_string(&p.source),
        item_id: match &p.item_id {
            Some(s) => Some(copy_string(s)),
            None => None,
        },
        title: copy_string(&p.title),
        body: copy_string(&p.body),
        metadata: copy_string(&p.metadata),
    }
}

fn copy_session(s: &ProcessSessionView) -> (r: ProcessSessionView)
    ensures
        r@ == s@,
{
    let mut output: Vec<AgentRunOutputPiece> = Vec::new();
    let mut i: usize = 0;
    while i < s.output.len()
        invariant
            i <= s.output.len(),
            pieces_view(output@) == pieces_view(s.output@).take(i as int),
        decreases s.output.len() - i,
    {
        let p = copy_piece(&s.output[i]);
        let ghost before = output@;
        output.push(p);
        assert(pieces_view(output@) =~= pieces_view(before).push(p@));
        assert(pieces_view(s.output@).take(i + 1) =~= pieces_view(s.output@).take(i as int).push(
            s.output@[i as int]@,
        ));
        i = i + 1;
    }
    assert(pieces_view(s.output@).take(s.output.len() as int) =~= pieces_view(s.output@));
    ProcessSessionView {
        run_id: s.run_id,
        project_name: copy_string(&s.project_name),
        tool_name: copy_string(&s.tool_name),
        command: copy_string(&s.command),
        working_dir: copy_string(&s.working_dir),
        process_id: s.process_id,
        output,
        started_at: copy_string(&s.started_at),
        updated_at: copy_string(&s.updated_at),
    }
}

/// Index of the first session of a sorted list whose run id is at least `run_id`.
fn position(v: &Vec<ProcessSessionView>, run_id: i64) -> (k: usize)
    ensures
        k <= v.len(),
        forall|i: int| 0 <= i < k ==> v@[i].run_id < run_id,
        k < v.len() ==> v@[k as int].run_id >= run_id,
{
    let mut k: usize = 0;
    while k < v.len() && v[k].run_id < run_id
        invariant
            k <= v.len(),
            forall|i: int| 0 <= i < k ==> v@[i].run_id < run_id,
        decreases v.len() - k,
    {
        k = k + 1;
    }
    k
}

/// Puts a session into a list sorted by run id, replacing one with the same run id.
fn insert_sorted(v: &mut Vec<ProcessSessionView>, session: ProcessSessionView)
    requires
        sorted_by_run_id(sessions_view(old(v)@)),
    ensures
        sorted_by_run_id(sessions_view(final(v)@)),
        session_map(sessions_view(final(v)@)) == session_map(sessions_view(old(v)@)).insert(
            session.run_id,
            session@,
        ),
{
    let run_id = session.run_id;
    let ghost model = session@;
    let ghost old_sessions = sessions_view(v@);
    let k = position(v, run_id);
    let replace = k < v.len() && v[k].run_id == run_id;
    if replace {
        v.set(k, session);
    } else {
        v.insert(k, session);
    }
    proof {
        let new_sessions = sessions_view(v@);
        if replace {
            assert(new_sessions =~= old_sessions.update(k as int, model));
        } else {
            assert(new_sessions =~= old_sessions.insert(k as int, model));
        }
        assert forall|i: int, j: int| 0 <= i < j < new_sessions.len() implies new_sessions[i].run_id
            < new_sessions[j].run_id by {
            let id = run_id;
            if replace {
                if i == k as int {
                    assert(old_sessions[k as int].run_id < old_sessions[j].run_id);
                } else if j == k as int {
                    assert(old_sessions[i].run_id < old_sessions[k as int].run_id);
                }
            } else {
                if k < old_sessions.len() {
                    assert(old_sessions[k as int].run_id > id);
                }
                if i < k && j == k as int {
                } else if i < k && j > k {
                    assert(old_sessions[j - 1].run_id >= old_sessions[k as int].run_id) by {
                        if j - 1 > k {
                            assert(old_sessions[k as int].run_id < old_sessions[j - 1].run_id);
                        }
                    }
                } else if i == k as int {
                    assert(old_sessions[j - 1].run_id >= old_sessions[k as int].run_id) by {
                        if j - 1 > k {
                            assert(old_sessions[k as int].run_id < old_sessions[j - 1].run_id);
                        }
                    }
                } else if i > k {
                    assert(old_sessions[i - 1].run_id < old_sessions[j - 1].run_id);
                } else {
                    assert(old_sessions[i].run_id < old_sessions[j].run_id);
                }
            }
        }
        assert(sorted_by_run_id(new_sessions));
        let m_old = session_map(old_sessions);
        let m_new = session_map(new_sessions);
        let expected = m_old.insert(run_id, model);
        assert forall|id: i64| m_new.dom().contains(id) <==> expected.dom().contains(id) by {
            if m_new.dom().contains(id) {
                let j = choose|j: int| 0 <= j < new_sessions.len() && new_sessions[j].run_id == id;
                if id != run_id {
                    if replace {
                        assert(old_sessions[j].run_id == id);
                    } else if j < k {
                        assert(old_sessions[j].run_id == id);
                    } else {
                        assert(old_sessions[j - 1].run_id == id);
                    }
                }
            }
            if expected.dom().contains(id) && id != run_id {
                let j = choose|j: int| 0 <= j < old_sessions.len() && old_sessions[j].run_id == id;
                if replace {
                    assert(new_sessions[j].run_id == id);
                } else if j < k {
                    assert(new_sessions[j].run_id == id);
                } else {
                    assert(new_sessions[j + 1].run_id == id);
                }
            }
            if id == run_id {
                assert(new_sessions[k as int].run_id == id);
            }
        }
        assert forall|id: i64| #[trigger] m_new.dom().contains(id) implies m_new[id] == expected[id] by {
            let j = choose|j: int| 0 <= j < new_sessions.len() && new_sessions[j].run_id == id;
            lemma_session_map_index(new_sessions, j);
            if id == run_id {
                assert(j == k) by {
                    if j < k {
                        assert(new_sessions[j].run_id < new_sessions[k as int].run_id);
                    } else if j > k {
                        assert(new_sessions[k as int].run_id < new_sessions[j].run_id);
                    }
                }
            } else {
                if replace {
                    lemma_session_map_index(old_sessions, j);
                } else if j < k {
                    lemma_session_map_index(old_sessions, j);
                } else {
                    lemma_session_map_index(old_sessions, j - 1);
                }
            }
        }
        assert(m_new =~= expected);
    }
}

/// The agent processes that are running, by run id, with their recent output.
#[derive(Debug)]
pub struct ProcessSessionRegistry {
    sessions: HashMap<i64, ProcessSessionView>,
}

impl View for ProcessSessionRegistry {
    type V = Map<i64, SessionModel>;

    closed spec fn view(&self) -> Map<i64, SessionModel> {
        self.sessions@.map_values(|s: ProcessSessionView| s@)
    }
}

impl Default for ProcessSessionRegistry {
    /// A registry without sessions.
    fn default() -> (r: Self)
        ensures
            r@ == Map::<i64, SessionModel>::empty(),
    {
        ProcessSessionRegistry::new()
    }
}

impl ProcessSessionRegistry {
    /// Each session is kept under its own run id.
    #[verifier::type_invariant]
    spec fn keyed_by_run_id(self) -> bool {
        forall|k: i64| #[trigger] self.sessions@.contains_key(k) ==> self.sessions@[k].run_id == k
    }

    /// A registry without sessions.
    pub fn new() -> (r: ProcessSessionRegistry)
        ensures
            r@ == Map::<i64, SessionModel>::empty(),
    {
        let r = ProcessSessionRegistry { sessions: HashMap::new() };
        assert(r@ =~= Map::<i64, SessionModel>::empty());
        r
    }

    /// Registers a session for `start`, replacing one with the same run id;
    /// its start and update times are the current time.
    pub fn begin(&mut self, start: ProcessSessionStart)
        ensures
            exists|t: time::OffsetDateTime|
                final(self)@ == old(self)@.insert(start.run_id, started_session(start, #[trigger] rfc3339_or_epoch(t))),
    {
        proof {
            use_type_invariant(&*self);
        }
        let now = utc_now();
        let ghost g_now = now@;
        let ghost g_t = choose|t: time::OffsetDateTime| now@ == #[trigger] rfc3339_or_epoch(t);
        let now2 = copy_string(&now);
        let run_id = start.run_id;
        let session = ProcessSessionView {
            run_id: start.run_id,
            project_name: start.project_name,
            tool_name: start.tool_name,
            command: start.command,
            working_dir: start.working_dir,
            process_id: None,
            output: Vec::new(),
            started_at: now,
            updated_at: now2,
        };
        let ghost model = session@;
        assert(model == started_session(start, g_now)) by {
            assert(pieces_view(session.output@) =~= Seq::<PieceModel>::empty());
        }
        let ghost old_map = self.sessions@;
        let mut m: HashMap<i64, ProcessSessionView> = HashMap::new();
        std::mem::swap(&mut m, &mut self.sessions);
        m.insert(run_id, session);
        assert forall|k: i64| #[trigger] m@.contains_key(k) implies m@[k].run_id == k by {
            if k != run_id {
                assert(old_map.contains_key(k));
            }
        }
        self.sessions = m;
        proof {
            assert(self@ =~= old(self)@.insert(run_id, model));
            assert(g_now == rfc3339_or_epoch(g_t));
        }
    }
}

/// Whether a session belongs to the selection: its project, or any project.
pub open spec fn keeps(m: SessionModel, project: Option<Seq<char>>) -> bool {
    match project {
        Some(p) => m.project_name == p,
        None => true,
    }
}

/// The project filter of a listing, as characters.
pub open spec fn project_view(project: Option<&str>) -> Option<Seq<char>> {
    match project {
        Some(p) => Some(p@),
        None => None,
    }
}

/// The sessions of `s` that the selection keeps, in their order.
pub open spec fn selected(s: Seq<SessionModel>, project: Option<Seq<char>>) -> Seq<SessionModel>
    decreases s.len(),
{
    if s.len() == 0 {
        Seq::empty()
    } else {
        let prev = selected(s.subrange(0, s.len() - 1), project);
        if keeps(s[s.len() - 1], project) {
            prev.push(s[s.len() - 1])
        } else {
            prev
        }
    }
}

/// The map of `m` restricted to the selection.
pub open spec fn map_selected(m: Map<i64, SessionModel>, project: Option<Seq<char>>) -> Map<i64, SessionModel> {
    match project {
        Some(p) => sessions_of_project(m, p),
        None => m,
    }
}

/// Appending a session with a larger run id keeps the order and adds it to the map.
pub proof fn lemma_session_map_push(s: Seq<SessionModel>, x: SessionModel)
    requires
        sorted_by_run_id(s),
        forall|i: int| 0 <= i < s.len() ==> #[trigger] s[i].run_id < x.run_id,
    ensures
        sorted_by_run_id(s.push(x)),
        session_map(s.push(x)) == session_map(s).insert(x.run_id, x),
{
    let t = s.push(x);
    let expected = session_map(s).insert(x.run_id, x);
    assert forall|id: i64| session_map(t).dom().contains(id) <==> expected.dom().contains(id) by {
        if session_map(t).dom().contains(id) && id != x.run_id {
            let j = choose|j: int| 0 <= j < t.len() && t[j].run_id == id;
            assert(s[j].run_id == id);
        }
        if expected.dom().contains(id) && id != x.run_id {
            let j = choose|j: int| 0 <= j < s.len() && s[j].run_id == id;
            assert(t[j].run_id == id);
        }
        if id == x.run_id {
            assert(t[s.len() as int].run_id == id);
        }
    }
    assert forall|id: i64| #[trigger] session_map(t).dom().contains(id) implies session_map(t)[id]
        == expected[id] by {
        let j = choose|j: int| 0 <= j < t.len() && t[j].run_id == id;
        lemma_session_map_index(t, j);
        if j < s.len() {
            lemma_session_map_index(s, j);
        }
    }
    assert(session_map(t) =~= expected);
}

/// The selection of a sorted list is sorted, drawn from the list, and lists
/// exactly the selected part of its map.
pub proof fn lemma_selected(s: Seq<SessionModel>, project: Option<Seq<char>>)
    requires
        sorted_by_run_id(s),
    ensures
        sorted_by_run_id(selected(s, project)),
        forall|j: int| 0 <= j < selected(s, project).len() ==> exists|t: int| 0 <= t < s.len() && #[trigger] selected(s, project)[j] == s[t],
        session_map(selected(s, project)) == map_selected(session_map(s), project),
    decreases s.len(),
{
    if s.len() == 0 {
        assert(session_map(s) =~= Map::<i64, SessionModel>::empty());
        assert(map_selected(session_map(s), project) =~= Map::<i64, SessionModel>::empty());
        assert(session_map(selected(s, project)) =~= Map::<i64, SessionModel>::empty());
    } else {
        let prefix = s.subrange(0, s.len() - 1);
        let x = s[s.len() - 1];
        assert(sorted_by_run_id(prefix));
        lemma_selected(prefix, project);
        let prev = selected(prefix, project);
        assert(prefix.push(x) =~= s);
        assert forall|i: int| 0 <= i < prefix.len() implies #[trigger] prefix[i].run_id < x.run_id by {
            assert(s[i].run_id < s[s.len() - 1].run_id);
        }
        lemma_session_map_push(prefix, x);
        assert forall|j: int| 0 <= j < prev.len() implies #[trigger] prev[j].run_id < x.run_id by {
            let t = choose|t: int| 0 <= t < prefix.len() && prev[j] == prefix[t];
            assert(prefix[t].run_id < x.run_id);
        }
        let mp = session_map(prefix);
        let ms = session_map(s);
        if keeps(x, project) {
            lemma_session_map_push(prev, x);
            assert forall|j: int| 0 <= j < selected(s, project).len() implies exists|t: int| 0 <= t < s.len() && #[trigger] selected(s, project)[j] == s[t] by {
                if j < prev.len() {
                    let t = choose|t: int| 0 <= t < prefix.len() && prev[j] == prefix[t];
                    assert(selected(s, project)[j] == s[t]);
                } else {
                    assert(selected(s, project)[j] == s[s.len() - 1]);
                }
            }
        } else {
            assert forall|j: int| 0 <= j < selected(s, project).len() implies exists|t: int| 0 <= t < s.len() && #[trigger] selected(s, project)[j] == s[t] by {
                let t = choose|t: int| 0 <= t < prefix.len() && prev[j] == prefix[t];
                assert(selected(s, project)[j] == s[t]);
            }
        }
        assert(session_map(selected(s, project)) =~= map_selected(ms, project));
    }
}

/// The session after a piece of output: the piece is added, the output trimmed
/// to the budget, and the update time set to `now`.
pub open spec fn with_output(s: SessionModel, piece: PieceModel, now: Seq<char>) -> SessionModel {
    SessionModel {
        output: trimmed(s.output.push(piece), MAX_SESSION_OUTPUT_BYTES as nat),
        updated_at: now,
        ..s
    }
}

/// Law: output runs oldest first. After a piece is added, the session's
/// output ends with that piece, and what comes before it is the old output
/// less some of its oldest pieces (none where everything fits).
pub proof fn lemma_output_appended_last(s: SessionModel, piece: PieceModel, now: Seq<char>)
    ensures
        ({
            let out = with_output(s, piece, now).output;
            &&& out.len() > 0
            &&& out.last() == piece
            &&& exists|k: int| 0 <= k <= s.output.len() && out == #[trigger] s.output.skip(k).push(piece)
            &&& saturate(pieces_size(s.output.push(piece))) <= MAX_SESSION_OUTPUT_BYTES ==> out == s.output.push(piece)
        }),
{
    let ps = s.output.push(piece);
    let max = MAX_SESSION_OUTPUT_BYTES as nat;
    lemma_trimmed_shape(ps, max);
    let t = trimmed(ps, max);
    let k = ps.len() - t.len();
    assert(0 <= k <= s.output.len());
    assert(t =~= s.output.skip(k).push(piece));
    if saturate(pieces_size(ps)) <= max {
        assert(ps.len() <= 1 || !(saturate(pieces_size(ps)) > max));
    }
}

/// Law: two pieces added one after the other come out in that order: the
/// output ends with the second, and the first stands just before it unless
/// the second alone is left.
pub proof fn lemma_outputs_keep_their_order(s: SessionModel, a: PieceModel, b: PieceModel, n1: Seq<char>, n2: Seq<char>)
    ensures
        ({
            let out = with_output(with_output(s, a, n1), b, n2).output;
            &&& out.last() == b
            &&& out.len() >= 2 ==> out[out.len() - 2] == a
        }),
{
    let mid = with_output(s, a, n1);
    lemma_output_appended_last(s, a, n1);
    lemma_output_appended_last(mid, b, n2);
    let out = with_output(mid, b, n2).output;
    let k = choose|k: int| 0 <= k <= mid.output.len() && out == #[trigger] mid.output.skip(k).push(b);
    if out.len() >= 2 {
        assert(out[out.len() - 2] == mid.output.skip(k).last());
        assert(mid.output.skip(k).last() == mid.output.last());
    }
}

/// Copies of the sessions of a sorted list that belong to the project named
/// `project` (all of them when it is `None`), in their order.
fn select(sessions: &Vec<ProcessSessionView>, project: Option<&str>) -> (r: Vec<ProcessSessionView>)
    ensures
        sessions_view(r@) == selected(sessions_view(sessions@), project_view(project)),
{
    let ghost all = sessions_view(sessions@);
    let ghost pv = project_view(project);
    let mut out: Vec<ProcessSessionView> = Vec::new();
    let mut i: usize = 0;
    while i < sessions.len()
        invariant
            i <= sessions.len(),
            all == sessions_view(sessions@),
            pv == project_view(project),
            sessions_view(out@) == selected(all.take(i as int), pv),
        decreases sessions.len() - i,
    {
        let take = match project {
            Some(p) => crate::text::str_eq(sessions[i].project_name.as_str(), p),
            None => true,
        };
        proof {
            assert(all.take(i + 1).subrange(0, i as int) =~= all.take(i as int));
            assert(all.take(i + 1)[i as int] == all[i as int]);
        }
        if take {
            let c = copy_session(&sessions[i]);
            let ghost before = sessions_view(out@);
            out.push(c);
            assert(sessions_view(out@) =~= before.push(all[i as int]));
        }
        i = i + 1;
    }
    assert(all.take(sessions.len() as int) =~= all);
    out
}

impl ProcessSessionRegistry {
    /// Adds a piece of output to the session of `run_id`, if it is running.
    pub fn append_output_piece(&mut self, run_id: i64, piece: AgentRunOutputPiece)
        ensures
            old(self)@.dom().contains(run_id) ==> exists|t: time::OffsetDateTime|
                final(self)@ == old(self)@.insert(
                    run_id,
                    with_output(old(self)@[run_id], piece@, #[trigger] rfc3339_or_epoch(t)),
                ),
            !old(self)@.dom().contains(run_id) ==> final(self)@ == old(self)@,
            old(self)@.dom().contains(run_id) ==> final(self)@[run_id].output.last() == piece@
                && exists|k: int| 0 <= k <= old(self)@[run_id].output.len()
                    && final(self)@[run_id].output == #[trigger] old(self)@[run_id].output.skip(k).push(piece@),
    {
        proof {
            use_type_invariant(&*self);
        }
        let ghost old_map = self.sessions@;
        let mut m: HashMap<i64, ProcessSessionView> = HashMap::new();
        std::mem::swap(&mut m, &mut self.sessions);
        match m.remove(&run_id) {
            Some(mut session) => {
                let ghost pv = piece@;
                let ghost old_model = session@;
                session.output.push(piece);
                assert(pieces_view(session.output@) =~= old_model.output.push(pv));
                trim_output_pieces(&mut session.output, MAX_SESSION_OUTPUT_BYTES);
                session.updated_at = utc_now();
                let ghost g_t = choose|t: time::OffsetDateTime| session.updated_at@ == #[trigger] rfc3339_or_epoch(t);
                let ghost new_model = session@;
                assert(session.run_id == run_id);
                m.insert(run_id, session);
                assert forall|k: i64| #[trigger] m@.contains_key(k) implies m@[k].run_id == k by {
                    if k != run_id {
                        assert(old_map.contains_key(k));
                    }
                }
                self.sessions = m;
                proof {
                    assert(new_model == with_output(old_model, pv, new_model.updated_at));
                    lemma_output_appended_last(old_model, pv, new_model.updated_at);
                    assert(new_model.updated_at == rfc3339_or_epoch(g_t));
                    assert(self@ =~= old(self)@.insert(run_id, new_model));
                }
            },
            None => {
                assert(m@ =~= old_map);
                self.sessions = m;
                proof {
                    assert(self@ =~= old(self)@);
                }
            },
        }
    }

    /// Forgets the session of `run_id`.
    pub fn finish(&mut self, run_id: i64)
        ensures
            final(self)@ == old(self)@.remove(run_id),
    {
        proof {
            use_type_invariant(&*self);
        }
        let ghost old_map = self.sessions@;
        let mut m: HashMap<i64, ProcessSessionView> = HashMap::new();
        std::mem::swap(&mut m, &mut self.sessions);
        let _ = m.remove(&run_id);
        assert forall|k: i64| #[trigger] m@.contains_key(k) implies m@[k].run_id == k by {
            assert(old_map.contains_key(k));
        }
        self.sessions = m;
        proof {
            assert(self@ =~= old(self)@.remove(run_id));
        }
    }

    /// Copies of all sessions, in increasing run id order.
    fn sorted_sessions(&self) -> (r: Vec<ProcessSessionView>)
        ensures
            sorted_by_run_id(sessions_view(r@)),
            session_map(sessions_view(r@)) == self@,
    {
        proof {
            use_type_invariant(self);
        }
        let mut out: Vec<ProcessSessionView> = Vec::new();
        let ghost ks = vstd::std_specs::hash::spec_keys_iter(&self.sessions).remaining();
        let ghost u = ks.unref();
        proof {
            assert(u.to_set() == self.sessions@.dom());
            assert forall|j: int| 0 <= j < u.len() implies self.sessions@.contains_key(#[trigger] u[j]) by {
                assert(u.to_set().contains(u[j]));
            }
            assert(u.take(0) =~= Seq::<i64>::empty());
            assert(self@.restrict(u.take(0).to_set()) =~= Map::<i64, SessionModel>::empty());
        }
        assert(session_map(sessions_view(out@)) =~= Map::<i64, SessionModel>::empty());
        for k in it: self.sessions.keys()
            invariant
                ks == vstd::std_specs::hash::spec_keys_iter(&self.sessions).remaining(),
                u == ks.unref(),
                it.seq() == ks,
                forall|j: int| 0 <= j < u.len() ==> self.sessions@.contains_key(#[trigger] u[j]),
                forall|k: i64| #[trigger] self.sessions@.contains_key(k) ==> self.sessions@[k].run_id == k,
                sorted_by_run_id(sessions_view(out@)),
                session_map(sessions_view(out@)) == self@.restrict(u.take(it.index() as int).to_set()),
        {
            let ghost i = it.index();
            let ghost before = u.take(i as int).to_set();
            proof {
                assert(u[i as int] == *k);
                lemma_take_to_set_step(u, i as int);
            }
            match self.sessions.get(k) {
                Some(s) => {
                    let c = copy_session(s);
                    insert_sorted(&mut out, c);
                    proof {
                        assert(self@.restrict(before.insert(*k)) =~= self@.restrict(before).insert(*k, s@));
                    }
                },
                None => {
                    proof {
                        assert(self.sessions@.contains_key(u[i as int]));
                    }
                },
            }
        }
        proof {
            assert(u.take(u.len() as int) =~= u);
            assert(u.to_set() == self.sessions@.dom());
            assert(self@.restrict(u.to_set()) =~= self@);
        }
        out
    }

    /// The sessions of the project named `project_name`, in increasing run id order.
    pub fn list_for_project(&self, project_name: &str) -> (r: Vec<ProcessSessionView>)
        ensures
            lists_exactly(sessions_view(r@), sessions_of_project(self@, project_name@)),
    {
        let all = self.sorted_sessions();
        let r = select(&all, Some(project_name));
        proof {
            lemma_selected(sessions_view(all@), Some(project_name@));
        }
        r
    }

    /// All sessions, in increasing run id order.
    pub fn list_all(&self) -> (r: Vec<ProcessSessionView>)
        ensures
            lists_exactly(sessions_view(r@), self@),
    {
        let all = self.sorted_sessions();
        let r = select(&all, None);
        proof {
            lemma_selected(sessions_view(all@), None);
        }
        r
    }

    /// The run ids of the sessions of `project_name`, in increasing order: the
    /// processes that a project-wide cancel must signal.
    pub fn cancel_project(&self, project_name: &str) -> (ids: Vec<i64>)
        ensures
            ids@.to_set() == sessions_of_project(self@, project_name@).dom(),
            ids@.len() == sessions_of_project(self@, project_name@).dom().len(),
            forall|i: int, j: int| 0 <= i < j < ids@.len() ==> ids@[i] < ids@[j],
    {
        let all = self.sorted_sessions();
        let listed = select(&all, Some(project_name));
        proof {
            lemma_selected(sessions_view(all@), Some(project_name@));
        }
        run_ids_of(&listed)
    }

    /// The run ids of all sessions, in increasing order: the processes that a
    /// shutdown must signal.
    pub fn cancel_all(&self) -> (ids: Vec<i64>)
        ensures
            ids@.to_set() == self@.dom(),
            ids@.len() == self@.dom().len(),
            forall|i: int, j: int| 0 <= i < j < ids@.len() ==> ids@[i] < ids@[j],
    {
        let all = self.sorted_sessions();
        let listed = select(&all, None);
        proof {
            lemma_selected(sessions_view(all@), None);
        }
        run_ids_of(&listed)
    }
}

/// The first `i + 1` items of a sequence hold the first `i` and the next one.
proof fn lemma_take_to_set_step(u: Seq<i64>, i: int)
    requires
        0 <= i < u.len(),
    ensures
        u.take(i + 1).to_set() == u.take(i).to_set().insert(u[i]),
{
    let a = u.take(i + 1);
    let b = u.take(i);
    assert forall|x: i64| a.to_set().contains(x) <==> b.to_set().insert(u[i]).contains(x) by {
        if a.contains(x) {
            let j = choose|j: int| 0 <= j < a.len() && a[j] == x;
            if j < i {
                assert(b[j] == x);
            }
        }
        if b.contains(x) {
            let j = choose|j: int| 0 <= j < b.len() && b[j] == x;
            assert(a[j] == x);
        }
        if x == u[i] {
            assert(a[i] == x);
        }
    }
    assert(a.to_set() =~= b.to_set().insert(u[i]));
}

/// The run ids of a sorted session list are its map's keys, in order and without repeats.
fn run_ids_of(listed: &Vec<ProcessSessionView>) -> (ids: Vec<i64>)
    requires
        sorted_by_run_id(sessions_view(listed@)),
    ensures
        ids@.to_set() == session_map(sessions_view(listed@)).dom(),
        ids@.len() == session_map(sessions_view(listed@)).dom().len(),
        forall|i: int, j: int| 0 <= i < j < ids@.len() ==> ids@[i] < ids@[j],
{
    let ghost sv = sessions_view(listed@);
    let mut ids: Vec<i64> = Vec::new();
    let mut i: usize = 0;
    while i < listed.len()
        invariant
            i <= listed.len(),
            sv == sessions_view(listed@),
            ids@.len() == i,
            forall|j: int| 0 <= j < i ==> ids@[j] == #[trigger] sv[j].run_id,
        decreases listed.len() - i,
    {
        ids.push(listed[i].run_id);
        i = i + 1;
    }
    proof {
        let d = session_map(sv).dom();
        assert(ids@.to_set() =~= d) by {
            assert forall|id: i64| ids@.to_set().contains(id) <==> d.contains(id) by {
                if ids@.to_set().contains(id) {
                    let j = choose|j: int| 0 <= j < ids@.len() && ids@[j] == id;
                    assert(sv[j].run_id == id);
                }
                if d.contains(id) {
                    let j = choose|j: int| 0 <= j < sv.len() && sv[j].run_id == id;
                    assert(ids@[j] == id);
                }
            }
        }
        assert forall|a: int, b: int| 0 <= a < b < ids@.len() implies ids@[a] < ids@[b] by {
            assert(sv[a].run_id < sv[b].run_id);
        }
        assert(ids@.no_duplicates()) by {
            assert forall|a: int, b: int| 0 <= a < ids@.len() && 0 <= b < ids@.len() && a != b implies ids@[a] != ids@[b] by {
                if a < b {
                    assert(sv[a].run_id < sv[b].run_id);
                } else {
                    assert(sv[b].run_id < sv[a].run_id);
                }
            }
        }
        ids@.unique_seq_to_set();
    }
    ids
}

} // verus!
