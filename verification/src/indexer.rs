//! The chain follower: the decisions of the indexers that walk the chain
//! through the block explorer, one block at a time, as a state machine. The
//! caller performs each action and reports what came of it.

use vstd::prelude::*;
use crate::db::models::InfoResponse;
use crate::header::{block_hash_from_str, block_hash_to_string, hash_display_text, header_bytes,
    header_pow_valid, proof_of_work_valid, BlockHeader};
use crate::hexcodec::{hex_decode_text, is_hex_text, law_hex_round_trip, reversed};
use crate::merkle::lemma_reversed_twice;

verus! {

/// How a follower handles a block that does not extend the last one it indexed.
#[derive(Debug, Clone, Copy, PartialEq, Eq)]
pub enum FollowerKind {
    /// The first indexer: drop what was indexed in the last six blocks and
    /// resume from there.
    Legacy,
    /// The block explorer indexer: walk both branches back to a common
    /// ancestor, at most `max_reorg` blocks deep, roll the database back by
    /// that many blocks, and record each block once it is processed.
    Rpc { max_reorg: u32 },
}

/// The walk back to the common ancestor of the indexed branch and the new one.
#[derive(Debug, Clone)]
pub struct ReorgSearch {
    /// The hash on the indexed branch being compared (walks back one block per round).
    pub old_tip: String,
    /// The hash on the new branch being compared.
    pub cursor: String,
    /// Where each round starts on the new branch: the new block's parent.
    pub branch_start: String,
    /// Rounds begun: how far back the indexed branch has been walked, plus one.
    pub depth: u32,
    /// Parents fetched on the new branch in this round.
    pub steps: u32,
}

/// Which branch a parent header was asked for.
#[derive(Debug, Clone, Copy, PartialEq, Eq)]
pub enum SearchWait {
    NewBranch,
    OldBranch,
}

/// What the follower waits for.
#[derive(Debug, Clone)]
pub enum FollowerPhase {
    AwaitTip,
    AwaitBlockHash { height: u32 },
    AwaitHeader { height: u32, hash: String },
    Searching { search: ReorgSearch, waiting: SearchWait },
    AwaitRollback { new_height: u32 },
    AwaitRestartHash,
    AwaitProcessed { height: u32, hash: String },
    AwaitSaved { height: u32, hash: String },
    Sleeping,
    Halted,
}

/// What the caller reports.
#[derive(Debug, Clone)]
pub enum FollowerEvent {
    /// The explorer's tip height.
    Tip(u32),
    /// The hash of the block at the height asked for.
    BlockHash(String),
    /// The header asked for.
    Header(BlockHeader),
    /// The action (database change, processing, sleep) is complete.
    Done,
}

/// What the caller is to do next.
#[derive(Debug, Clone)]
pub enum FollowerAction {
    FetchTip,
    FetchBlockHash(u32),
    FetchHeader(String),
    /// Fetch the header of this block, to learn its parent, then pause 228 ms.
    FetchParentHeader(String),
    /// Roll the database back by this many blocks.
    RollBack(u32),
    /// Delete what was indexed at this height and above.
    DeleteFrom(i32),
    /// Record what the block means for the watched addresses.
    ProcessBlock { hash: String, header: BlockHeader },
    /// Record this height and hash as the last block indexed.
    SaveInfo { height: u32, hash: String },
    Sleep { millis: u64 },
    /// Stop for good: the branch switch is deeper than allowed, or the
    /// follower was told something it did not ask for.
    Halt,
}

/// A chain follower's state.
#[derive(Debug, Clone)]
pub struct ChainFollower {
    pub last_height: u32,
    pub last_block_hash: String,
    pub kind: FollowerKind,
    pub phase: FollowerPhase,
}

pub struct ReorgSearchView {
    pub old_tip: Seq<char>,
    pub cursor: Seq<char>,
    pub branch_start: Seq<char>,
    pub depth: u32,
    pub steps: u32,
}

pub enum FollowerPhaseView {
    AwaitTip,
    AwaitBlockHash { height: u32 },
    AwaitHeader { height: u32, hash: Seq<char> },
    Searching { search: ReorgSearchView, waiting: SearchWait },
    AwaitRollback { new_height: u32 },
    AwaitRestartHash,
    AwaitProcessed { height: u32, hash: Seq<char> },
    AwaitSaved { height: u32, hash: Seq<char> },
    Sleeping,
    Halted,
}

pub enum FollowerEventView {
    Tip(u32),
    BlockHash(Seq<char>),
    Header(BlockHeader),
    Done,
}

pub enum FollowerActionView {
    FetchTip,
    FetchBlockHash(u32),
    FetchHeader(Seq<char>),
    FetchParentHeader(Seq<char>),
    RollBack(u32),
    DeleteFrom(i32),
    ProcessBlock { hash: Seq<char>, header: BlockHeader },
    SaveInfo { height: u32, hash: Seq<char> },
    Sleep { millis: u64 },
    Halt,
}

pub struct ChainFollowerView {
    pub last_height: u32,
    pub last_block_hash: Seq<char>,
    pub kind: FollowerKind,
    pub phase: FollowerPhaseView,
}

impl DeepView for ReorgSearch {
    type V = ReorgSearchView;

    open spec fn deep_view(&self) -> ReorgSearchView {
        ReorgSearchView {
            old_tip: self.old_tip@,
            cursor: self.cursor@,
            branch_start: self.branch_start@,
            depth: self.depth,
            steps: self.steps,
        }
    }
}

impl DeepView for FollowerPhase {
    type V = FollowerPhaseView;

    open spec fn deep_view(&self) -> FollowerPhaseView {
        match self {
            FollowerPhase::AwaitTip => FollowerPhaseView::AwaitTip,
            FollowerPhase::AwaitBlockHash { height } => FollowerPhaseView::AwaitBlockHash { height: *height },
            FollowerPhase::AwaitHeader { height, hash } => FollowerPhaseView::AwaitHeader { height: *height, hash: hash@ },
            FollowerPhase::Searching { search, waiting } => FollowerPhaseView::Searching {
                search: search.deep_view(),
                waiting: *waiting,
            },
            FollowerPhase::AwaitRollback { new_height } => FollowerPhaseView::AwaitRollback { new_height: *new_height },
            FollowerPhase::AwaitRestartHash => FollowerPhaseView::AwaitRestartHash,
            FollowerPhase::AwaitProcessed { height, hash } => FollowerPhaseView::AwaitProcessed { height: *height, hash: hash@ },
            FollowerPhase::AwaitSaved { height, hash } => FollowerPhaseView::AwaitSaved { height: *height, hash: hash@ },
            FollowerPhase::Sleeping => FollowerPhaseView::Sleeping,
            FollowerPhase::Halted => FollowerPhaseView::Halted,
        }
    }
}

impl DeepView for FollowerEvent {
    type V = FollowerEventView;

    open spec fn deep_view(&self) -> FollowerEventView {
        match self {
            FollowerEvent::Tip(h) => FollowerEventView::Tip(*h),
            FollowerEvent::BlockHash(s) => FollowerEventView::BlockHash(s@),
            FollowerEvent::Header(h) => FollowerEventView::Header(*h),
            FollowerEvent::Done => FollowerEventView::Done,
        }
    }
}

impl DeepView for FollowerAction {
    type V = FollowerActionView;

    open spec fn deep_view(&self) -> FollowerActionView {
        match self {
            FollowerAction::FetchTip => FollowerActionView::FetchTip,
            FollowerAction::FetchBlockHash(h) => FollowerActionView::FetchBlockHash(*h),
            FollowerAction::FetchHeader(s) => FollowerActionView::FetchHeader(s@),
            FollowerAction::FetchParentHeader(s) => FollowerActionView::FetchParentHeader(s@),
            FollowerAction::RollBack(n) => FollowerActionView::RollBack(*n),
            FollowerAction::DeleteFrom(h) => FollowerActionView::DeleteFrom(*h),
            FollowerAction::ProcessBlock { hash, header } => FollowerActionView::ProcessBlock {
                hash: hash@,
                header: *header,
            },
            FollowerAction::SaveInfo { height, hash } => FollowerActionView::SaveInfo { height: *height, hash: hash@ },
            FollowerAction::Sleep { millis } => FollowerActionView::Sleep { millis: *millis },
            FollowerAction::Halt => FollowerActionView::Halt,
        }
    }
}

impl DeepView for ChainFollower {
    type V = ChainFollowerView;

    open spec fn deep_view(&self) -> ChainFollowerView {
        ChainFollowerView {
            last_height: self.last_height,
            last_block_hash: self.last_block_hash@,
            kind: self.kind,
            phase: self.phase.deep_view(),
        }
    }
}

/// How the walk back goes on.
pub enum SearchOutcome {
    /// Fetch the parent of this hash, on this branch.
    Fetch(SearchWait, Seq<char>),
    /// The two hashes met: the database goes back this many blocks.
    Found(u32),
    /// The branch switch is deeper than allowed.
    TooDeep,
}

/// A count plus one, wrapping at the top (which no walk back reaches, as
/// counts stop at the allowed depth).
pub open spec fn next_count(n: u32) -> u32 {
    if n == u32::MAX {
        0
    } else {
        (n + 1) as u32
    }
}

/// After a round on the new branch: done if the hashes met, otherwise step
/// the indexed branch back one block.
pub open spec fn search_after_round(s: ReorgSearchView) -> (ReorgSearchView, SearchOutcome) {
    if s.old_tip == s.cursor {
        (s, SearchOutcome::Found(s.depth))
    } else {
        (s, SearchOutcome::Fetch(SearchWait::OldBranch, s.old_tip))
    }
}

/// Within a round: walk the new branch back, at most `max` parents.
pub open spec fn search_in_round(s: ReorgSearchView, max: u32) -> (ReorgSearchView, SearchOutcome) {
    if s.old_tip == s.cursor || s.steps == max {
        search_after_round(s)
    } else {
        (ReorgSearchView { steps: next_count(s.steps), ..s }, SearchOutcome::Fetch(SearchWait::NewBranch, s.cursor))
    }
}

/// Between rounds: done if the hashes met; refused after `max` rounds;
/// otherwise a new round from the new block's parent.
pub open spec fn search_next_round(s: ReorgSearchView, max: u32) -> (ReorgSearchView, SearchOutcome) {
    if s.old_tip == s.cursor {
        (s, SearchOutcome::Found(s.depth))
    } else if s.depth == max {
        (s, SearchOutcome::TooDeep)
    } else {
        search_in_round(
            ReorgSearchView { depth: next_count(s.depth), steps: 0, cursor: s.branch_start, ..s },
            max,
        )
    }
}

/// The walk after the parent of the awaited hash is learned.
pub open spec fn search_on_parent(s: ReorgSearchView, waiting: SearchWait, parent: Seq<char>, max: u32) -> (ReorgSearchView, SearchOutcome) {
    match waiting {
        SearchWait::NewBranch => {
            let s2 = ReorgSearchView { cursor: parent, ..s };
            if s2.old_tip == s2.cursor {
                search_after_round(s2)
            } else {
                search_in_round(s2, max)
            }
        },
        SearchWait::OldBranch => search_next_round(ReorgSearchView { old_tip: parent, ..s }, max),
    }
}

/// Where the follower goes once the walk back has an outcome.
pub open spec fn after_search(f: ChainFollowerView, s: ReorgSearchView, o: SearchOutcome) -> (ChainFollowerView, FollowerActionView) {
    match o {
        SearchOutcome::Fetch(w, h) => (
            ChainFollowerView { phase: FollowerPhaseView::Searching { search: s, waiting: w }, ..f },
            FollowerActionView::FetchParentHeader(h),
        ),
        SearchOutcome::Found(d) => if d > f.last_height {
            (ChainFollowerView { phase: FollowerPhaseView::Halted, ..f }, FollowerActionView::Halt)
        } else {
            (
                ChainFollowerView {
                    phase: FollowerPhaseView::AwaitRollback { new_height: (f.last_height - d) as u32 },
                    ..f
                },
                FollowerActionView::RollBack(d),
            )
        },
        SearchOutcome::TooDeep => (ChainFollowerView { phase: FollowerPhaseView::Halted, ..f }, FollowerActionView::Halt),
    }
}

/// The height the first indexer goes back to: six blocks below the last one, or the start.
pub open spec fn legacy_safe_height(last: u32) -> u32 {
    if last > 6 {
        (last - 6) as u32
    } else {
        0
    }
}

/// The follower's response to a header for the next height.
pub open spec fn on_header(f: ChainFollowerView, height: u32, hash: Seq<char>, h: BlockHeader) -> (ChainFollowerView, FollowerActionView) {
    let prev = hash_display_text(h.prev_blockhash@);
    if prev != f.last_block_hash {
        match f.kind {
            FollowerKind::Legacy => {
                let safe = legacy_safe_height(f.last_height);
                (
                    ChainFollowerView { phase: FollowerPhaseView::AwaitRollback { new_height: safe }, ..f },
                    FollowerActionView::DeleteFrom(safe as i32),
                )
            },
            FollowerKind::Rpc { max_reorg } => {
                let start = ReorgSearchView { old_tip: f.last_block_hash, cursor: prev, branch_start: prev, depth: 0, steps: 0 };
                let (s, o) = search_next_round(start, max_reorg);
                after_search(f, s, o)
            },
        }
    } else if !proof_of_work_valid(header_bytes(h)) {
        (ChainFollowerView { phase: FollowerPhaseView::Sleeping, ..f }, FollowerActionView::Sleep { millis: 60_000 })
    } else {
        (
            ChainFollowerView { phase: FollowerPhaseView::AwaitProcessed { height, hash }, ..f },
            FollowerActionView::ProcessBlock { hash, header: h },
        )
    }
}

/// The follower after a block is indexed at `height` with hash `hash`.
pub open spec fn advanced(f: ChainFollowerView, height: u32, hash: Seq<char>) -> (ChainFollowerView, FollowerActionView) {
    (
        ChainFollowerView { last_height: height, last_block_hash: hash, phase: FollowerPhaseView::Sleeping, ..f },
        FollowerActionView::Sleep { millis: 1_000 },
    )
}

/// The transition of the chain follower on an event.
pub open spec fn follower_next(f: ChainFollowerView, e: FollowerEventView) -> (ChainFollowerView, FollowerActionView) {
    let halt = (ChainFollowerView { phase: FollowerPhaseView::Halted, ..f }, FollowerActionView::Halt);
    match (f.phase, e) {
        (FollowerPhaseView::AwaitTip, FollowerEventView::Tip(tip)) => if f.last_height < tip {
            (
                ChainFollowerView { phase: FollowerPhaseView::AwaitBlockHash { height: (f.last_height + 1) as u32 }, ..f },
                FollowerActionView::FetchBlockHash((f.last_height + 1) as u32),
            )
        } else {
            (ChainFollowerView { phase: FollowerPhaseView::Sleeping, ..f }, FollowerActionView::Sleep { millis: 120_000 })
        },
        (FollowerPhaseView::AwaitBlockHash { height }, FollowerEventView::BlockHash(hash)) => (
            ChainFollowerView { phase: FollowerPhaseView::AwaitHeader { height, hash }, ..f },
            FollowerActionView::FetchHeader(hash),
        ),
        (FollowerPhaseView::AwaitHeader { height, hash }, FollowerEventView::Header(h)) => on_header(f, height, hash, h),
        (FollowerPhaseView::Searching { search, waiting }, FollowerEventView::Header(h)) => match f.kind {
            FollowerKind::Rpc { max_reorg } => {
                let (s, o) = search_on_parent(search, waiting, hash_display_text(h.prev_blockhash@), max_reorg);
                after_search(f, s, o)
            },
            FollowerKind::Legacy => halt,
        },
        (FollowerPhaseView::AwaitRollback { new_height }, FollowerEventView::Done) => (
            ChainFollowerView { last_height: new_height, phase: FollowerPhaseView::AwaitRestartHash, ..f },
            FollowerActionView::FetchBlockHash(new_height),
        ),
        (FollowerPhaseView::AwaitRestartHash, FollowerEventView::BlockHash(hash)) => (
            ChainFollowerView { last_block_hash: hash, phase: FollowerPhaseView::AwaitTip, ..f },
            FollowerActionView::FetchTip,
        ),
        (FollowerPhaseView::AwaitProcessed { height, hash }, FollowerEventView::Done) => match f.kind {
            FollowerKind::Rpc { .. } => (
                ChainFollowerView { phase: FollowerPhaseView::AwaitSaved { height, hash }, ..f },
                FollowerActionView::SaveInfo { height: f.last_height, hash: f.last_block_hash },
            ),
            FollowerKind::Legacy => advanced(f, height, hash),
        },
        (FollowerPhaseView::AwaitSaved { height, hash }, FollowerEventView::Done) => advanced(f, height, hash),
        (FollowerPhaseView::Sleeping, FollowerEventView::Done) => (
            ChainFollowerView { phase: FollowerPhaseView::AwaitTip, ..f },
            FollowerActionView::FetchTip,
        ),
        _ => halt,
    }
}

/// How the walk back goes on (the running form of `SearchOutcome`).
#[derive(Debug, Clone)]
pub enum SearchStep {
    Fetch(SearchWait, String),
    Found(u32),
    TooDeep,
}

impl DeepView for SearchStep {
    type V = SearchOutcome;

    open spec fn deep_view(&self) -> SearchOutcome {
        match self {
            SearchStep::Fetch(w, h) => SearchOutcome::Fetch(*w, h@),
            SearchStep::Found(d) => SearchOutcome::Found(*d),
            SearchStep::TooDeep => SearchOutcome::TooDeep,
        }
    }
}

fn bump(n: u32) -> (r: u32)
    ensures
        r == next_count(n),
{
    if n == u32::MAX {
        0
    } else {
        n + 1
    }
}

fn same_text(a: &String, b: &String) -> (r: bool)
    ensures
        r == (a@ == b@),
{
    *a == *b
}

fn after_round(s: ReorgSearch) -> (r: (ReorgSearch, SearchStep))
    ensures
        (r.0.deep_view(), r.1.deep_view()) =~~= search_after_round(s.deep_view()),
{
    if same_text(&s.old_tip, &s.cursor) {
        let d = s.depth;
        (s, SearchStep::Found(d))
    } else {
        let t = s.old_tip.clone();
        (s, SearchStep::Fetch(SearchWait::OldBranch, t))
    }
}

fn in_round(s: ReorgSearch, max: u32) -> (r: (ReorgSearch, SearchStep))
    ensures
        (r.0.deep_view(), r.1.deep_view()) =~~= search_in_round(s.deep_view(), max),
{
    if same_text(&s.old_tip, &s.cursor) || s.steps == max {
        after_round(s)
    } else {
        let c = s.cursor.clone();
        let s2 = ReorgSearch { steps: bump(s.steps), ..s };
        (s2, SearchStep::Fetch(SearchWait::NewBranch, c))
    }
}

fn next_round(s: ReorgSearch, max: u32) -> (r: (ReorgSearch, SearchStep))
    ensures
        (r.0.deep_view(), r.1.deep_view()) =~~= search_next_round(s.deep_view(), max),
{
    if same_text(&s.old_tip, &s.cursor) {
        let d = s.depth;
        (s, SearchStep::Found(d))
    } else if s.depth == max {
        (s, SearchStep::TooDeep)
    } else {
        let start = s.branch_start.clone();
        in_round(ReorgSearch { depth: bump(s.depth), steps: 0, cursor: start, ..s }, max)
    }
}

fn on_parent(s: ReorgSearch, waiting: SearchWait, parent: String, max: u32) -> (r: (ReorgSearch, SearchStep))
    ensures
        (r.0.deep_view(), r.1.deep_view()) =~~= search_on_parent(s.deep_view(), waiting, parent@, max),
{
    match waiting {
        SearchWait::NewBranch => {
            let s2 = ReorgSearch { cursor: parent, ..s };
            if same_text(&s2.old_tip, &s2.cursor) {
                after_round(s2)
            } else {
                in_round(s2, max)
            }
        },
        SearchWait::OldBranch => next_round(ReorgSearch { old_tip: parent, ..s }, max),
    }
}

impl ChainFollower {
    /// A follower that resumes after the block `last_block_hash` at
    /// `last_height`; its first action is to ask for the explorer's tip.
    pub fn new(last_height: u32, last_block_hash: String, kind: FollowerKind) -> (r: (ChainFollower, FollowerAction))
        ensures
            r.0.deep_view() =~~= (ChainFollowerView {
                last_height,
                last_block_hash: last_block_hash@,
                kind,
                phase: FollowerPhaseView::AwaitTip,
            }),
            r.1 is FetchTip,
    {
        (ChainFollower { last_height, last_block_hash, kind, phase: FollowerPhase::AwaitTip }, FollowerAction::FetchTip)
    }

    fn after_search(self, s: ReorgSearch, o: SearchStep) -> (r: (ChainFollower, FollowerAction))
        ensures
            (r.0.deep_view(), r.1.deep_view()) =~~= after_search(self.deep_view(), s.deep_view(), o.deep_view()),
    {
        match o {
            SearchStep::Fetch(w, h) => (
                ChainFollower { phase: FollowerPhase::Searching { search: s, waiting: w }, ..self },
                FollowerAction::FetchParentHeader(h),
            ),
            SearchStep::Found(d) => if d > self.last_height {
                (ChainFollower { phase: FollowerPhase::Halted, ..self }, FollowerAction::Halt)
            } else {
                let new_height = self.last_height - d;
                (
                    ChainFollower { phase: FollowerPhase::AwaitRollback { new_height }, ..self },
                    FollowerAction::RollBack(d),
                )
            },
            SearchStep::TooDeep => (ChainFollower { phase: FollowerPhase::Halted, ..self }, FollowerAction::Halt),
        }
    }

    fn on_header(self, height: u32, hash: String, h: BlockHeader) -> (r: (ChainFollower, FollowerAction))
        ensures
            (r.0.deep_view(), r.1.deep_view()) =~~= on_header(self.deep_view(), height, hash@, h),
    {
        let prev = block_hash_to_string(&h.prev_blockhash);
        if !same_text(&prev, &self.last_block_hash) {
            match self.kind {
                FollowerKind::Legacy => {
                    let safe: u32 = if self.last_height > 6 { self.last_height - 6 } else { 0 };
                    (
                        ChainFollower { phase: FollowerPhase::AwaitRollback { new_height: safe }, ..self },
                        FollowerAction::DeleteFrom(safe as i32),
                    )
                },
                FollowerKind::Rpc { max_reorg } => {
                    let start = ReorgSearch {
                        old_tip: self.last_block_hash.clone(),
                        cursor: prev.clone(),
                        branch_start: prev,
                        depth: 0,
                        steps: 0,
                    };
                    let (s, o) = next_round(start, max_reorg);
                    self.after_search(s, o)
                },
            }
        } else if !header_pow_valid(&h) {
            (ChainFollower { phase: FollowerPhase::Sleeping, ..self }, FollowerAction::Sleep { millis: 60_000 })
        } else {
            let action_hash = hash.clone();
            (
                ChainFollower { phase: FollowerPhase::AwaitProcessed { height, hash }, ..self },
                FollowerAction::ProcessBlock { hash: action_hash, header: h },
            )
        }
    }

    /// The follower's next state and action, given what came of its last action.
    pub fn step(self, event: FollowerEvent) -> (r: (ChainFollower, FollowerAction))
        ensures
            (r.0.deep_view(), r.1.deep_view()) =~~= follower_next(self.deep_view(), event.deep_view()),
    {
        let ChainFollower { last_height, last_block_hash, kind, phase } = self;
        let f = ChainFollower { last_height, last_block_hash, kind, phase: FollowerPhase::Halted };
        match (phase, event) {
            (FollowerPhase::AwaitTip, FollowerEvent::Tip(tip)) => if f.last_height < tip {
                let next = f.last_height + 1;
                (ChainFollower { phase: FollowerPhase::AwaitBlockHash { height: next }, ..f }, FollowerAction::FetchBlockHash(next))
            } else {
                (ChainFollower { phase: FollowerPhase::Sleeping, ..f }, FollowerAction::Sleep { millis: 120_000 })
            },
            (FollowerPhase::AwaitBlockHash { height }, FollowerEvent::BlockHash(hash)) => {
                let fetch = hash.clone();
                (ChainFollower { phase: FollowerPhase::AwaitHeader { height, hash }, ..f }, FollowerAction::FetchHeader(fetch))
            },
            (FollowerPhase::AwaitHeader { height, hash }, FollowerEvent::Header(h)) => f.on_header(height, hash, h),
            (FollowerPhase::Searching { search, waiting }, FollowerEvent::Header(h)) => match f.kind {
                FollowerKind::Rpc { max_reorg } => {
                    let parent = block_hash_to_string(&h.prev_blockhash);
                    let (s, o) = on_parent(search, waiting, parent, max_reorg);
                    f.after_search(s, o)
                },
                FollowerKind::Legacy => (f, FollowerAction::Halt),
            },
            (FollowerPhase::AwaitRollback { new_height }, FollowerEvent::Done) => (
                ChainFollower { last_height: new_height, phase: FollowerPhase::AwaitRestartHash, ..f },
                FollowerAction::FetchBlockHash(new_height),
            ),
            (FollowerPhase::AwaitRestartHash, FollowerEvent::BlockHash(hash)) => (
                ChainFollower { last_block_hash: hash, phase: FollowerPhase::AwaitTip, ..f },
                FollowerAction::FetchTip,
            ),
            (FollowerPhase::AwaitProcessed { height, hash }, FollowerEvent::Done) => match f.kind {
                FollowerKind::Rpc { .. } => {
                    let saved_hash = f.last_block_hash.clone();
                    let saved_height = f.last_height;
                    (
                        ChainFollower { phase: FollowerPhase::AwaitSaved { height, hash }, ..f },
                        FollowerAction::SaveInfo { height: saved_height, hash: saved_hash },
                    )
                },
                FollowerKind::Legacy => (
                    ChainFollower { last_height: height, last_block_hash: hash, phase: FollowerPhase::Sleeping, ..f },
                    FollowerAction::Sleep { millis: 1_000 },
                ),
            },
            (FollowerPhase::AwaitSaved { height, hash }, FollowerEvent::Done) => (
                ChainFollower { last_height: height, last_block_hash: hash, phase: FollowerPhase::Sleeping, ..f },
                FollowerAction::Sleep { millis: 1_000 },
            ),
            (FollowerPhase::Sleeping, FollowerEvent::Done) => (
                ChainFollower { phase: FollowerPhase::AwaitTip, ..f },
                FollowerAction::FetchTip,
            ),
            _ => (f, FollowerAction::Halt),
        }
    }
}

/// A walk back within its bounds: at least one round begun, at most `max`
/// rounds, at most `max` parents fetched in the current round.
pub open spec fn search_within(s: ReorgSearchView, max: u32) -> bool {
    1 <= s.depth <= max && s.steps <= max
}

/// What holds of every state a follower reaches: a pending block is always
/// the one right above the last indexed block, a walk back stays within its
/// bounds, and a pending rollback goes back at least one and at most the
/// allowed number of blocks (six, for the first indexer, or to the start).
pub open spec fn follower_inv(f: ChainFollowerView) -> bool {
    match f.phase {
        FollowerPhaseView::AwaitBlockHash { height } => height == f.last_height + 1,
        FollowerPhaseView::AwaitHeader { height, .. } => height == f.last_height + 1,
        FollowerPhaseView::AwaitProcessed { height, .. } => height == f.last_height + 1,
        FollowerPhaseView::AwaitSaved { height, .. } => height == f.last_height + 1 && f.kind is Rpc,
        FollowerPhaseView::Searching { search, .. } => match f.kind {
            FollowerKind::Rpc { max_reorg } => search_within(search, max_reorg),
            FollowerKind::Legacy => false,
        },
        FollowerPhaseView::AwaitRollback { new_height } => match f.kind {
            FollowerKind::Rpc { max_reorg } => new_height < f.last_height && f.last_height - new_height <= max_reorg,
            FollowerKind::Legacy => new_height == legacy_safe_height(f.last_height),
        },
        _ => true,
    }
}

proof fn lemma_after_round(s: ReorgSearchView, max: u32)
    requires
        search_within(s, max),
    ensures
        search_within(search_after_round(s).0, max),
        search_after_round(s).1 matches SearchOutcome::Found(d) ==> 1 <= d <= max,
        !(search_after_round(s).1 is TooDeep),
{
}

proof fn lemma_in_round(s: ReorgSearchView, max: u32)
    requires
        search_within(s, max),
    ensures
        search_within(search_in_round(s, max).0, max),
        search_in_round(s, max).1 matches SearchOutcome::Found(d) ==> 1 <= d <= max,
        !(search_in_round(s, max).1 is TooDeep),
{
    lemma_after_round(s, max);
}

proof fn lemma_next_round(s: ReorgSearchView, max: u32)
    requires
        s.depth <= max,
        s.steps <= max,
        s.depth == 0 ==> s.old_tip != s.cursor,
    ensures
        !(search_next_round(s, max).1 is TooDeep) ==> search_within(search_next_round(s, max).0, max),
        search_next_round(s, max).1 matches SearchOutcome::Found(d) ==> 1 <= d <= max,
{
    if s.old_tip != s.cursor && s.depth != max {
        let s2 = ReorgSearchView { depth: next_count(s.depth), steps: 0, cursor: s.branch_start, ..s };
        lemma_in_round(s2, max);
    }
}

proof fn lemma_on_parent(s: ReorgSearchView, w: SearchWait, p: Seq<char>, max: u32)
    requires
        search_within(s, max),
    ensures
        !(search_on_parent(s, w, p, max).1 is TooDeep) ==> search_within(search_on_parent(s, w, p, max).0, max),
        search_on_parent(s, w, p, max).1 matches SearchOutcome::Found(d) ==> 1 <= d <= max,
{
    match w {
        SearchWait::NewBranch => {
            let s2 = ReorgSearchView { cursor: p, ..s };
            lemma_after_round(s2, max);
            lemma_in_round(s2, max);
        },
        SearchWait::OldBranch => {
            lemma_next_round(ReorgSearchView { old_tip: p, ..s }, max);
        },
    }
}

/// A new follower is in a good state, and every step keeps it so.
pub proof fn law_follower_inv_preserved(f: ChainFollowerView, e: FollowerEventView)
    requires
        follower_inv(f),
    ensures
        follower_inv(follower_next(f, e).0),
        follower_inv(ChainFollowerView { phase: FollowerPhaseView::AwaitTip, ..f }),
{
    match (f.phase, e) {
        (FollowerPhaseView::AwaitHeader { height, hash }, FollowerEventView::Header(h)) => {
            let prev = hash_display_text(h.prev_blockhash@);
            if prev != f.last_block_hash {
                if let FollowerKind::Rpc { max_reorg } = f.kind {
                    let start = ReorgSearchView { old_tip: f.last_block_hash, cursor: prev, branch_start: prev, depth: 0, steps: 0 };
                    lemma_next_round(start, max_reorg);
                }
            }
        },
        (FollowerPhaseView::Searching { search, waiting }, FollowerEventView::Header(h)) => {
            if let FollowerKind::Rpc { max_reorg } = f.kind {
                lemma_on_parent(search, waiting, hash_display_text(h.prev_blockhash@), max_reorg);
            }
        },
        _ => {},
    }
}

/// A block is handed over for processing only right above the last indexed
/// block: its header names the last indexed block as its parent, and its
/// proof of work is valid.
pub proof fn law_process_only_linked_valid_blocks(f: ChainFollowerView, e: FollowerEventView)
    requires
        follower_inv(f),
    ensures
        follower_next(f, e).1 matches FollowerActionView::ProcessBlock { hash, header } ==> {
            &&& hash_display_text(header.prev_blockhash@) == f.last_block_hash
            &&& proof_of_work_valid(header_bytes(header))
            &&& f.phase == (FollowerPhaseView::AwaitHeader { height: (f.last_height + 1) as u32, hash })
            &&& e == FollowerEventView::Header(header)
        },
{
    match (f.phase, e) {
        (FollowerPhaseView::AwaitHeader { height, hash }, FollowerEventView::Header(h)) => {
            let prev = hash_display_text(h.prev_blockhash@);
            if prev != f.last_block_hash {
                if let FollowerKind::Rpc { max_reorg } = f.kind {
                    let start = ReorgSearchView { old_tip: f.last_block_hash, cursor: prev, branch_start: prev, depth: 0, steps: 0 };
                    lemma_next_round(start, max_reorg);
                }
            }
        },
        (FollowerPhaseView::Searching { search, waiting }, FollowerEventView::Header(h)) => {
            if let FollowerKind::Rpc { max_reorg } = f.kind {
                lemma_on_parent(search, waiting, hash_display_text(h.prev_blockhash@), max_reorg);
            }
        },
        _ => {},
    }
}

/// A block is recorded as the last one indexed only by the explorer
/// indexer, only once the block right above it was processed, and the record
/// is of the last indexed block: the recorded height never passes the
/// highest block fully processed.
pub proof fn law_checkpoint_after_processing(f: ChainFollowerView, e: FollowerEventView)
    requires
        follower_inv(f),
    ensures
        follower_next(f, e).1 matches FollowerActionView::SaveInfo { height, hash } ==> {
            &&& f.kind is Rpc
            &&& e == FollowerEventView::Done
            &&& f.phase matches FollowerPhaseView::AwaitProcessed { height: processed, .. } && processed == height + 1
            &&& height == f.last_height
            &&& hash == f.last_block_hash
        },
{
    match (f.phase, e) {
        (FollowerPhaseView::AwaitHeader { height, hash }, FollowerEventView::Header(h)) => {
            let prev = hash_display_text(h.prev_blockhash@);
            if prev != f.last_block_hash {
                if let FollowerKind::Rpc { max_reorg } = f.kind {
                    let start = ReorgSearchView { old_tip: f.last_block_hash, cursor: prev, branch_start: prev, depth: 0, steps: 0 };
                    lemma_next_round(start, max_reorg);
                }
            }
        },
        (FollowerPhaseView::Searching { search, waiting }, FollowerEventView::Header(h)) => {
            if let FollowerKind::Rpc { max_reorg } = f.kind {
                lemma_on_parent(search, waiting, hash_display_text(h.prev_blockhash@), max_reorg);
            }
        },
        _ => {},
    }
}

/// The indexed height moves up by at most one block per step, and only to a
/// block that was processed (and, for the explorer indexer, after the
/// previous block was recorded); it moves down only by a rollback of at
/// least one and at most the allowed number of blocks.
pub proof fn law_height_moves_within_bounds(f: ChainFollowerView, e: FollowerEventView)
    requires
        follower_inv(f),
    ensures
        ({
            let g = follower_next(f, e).0;
            ||| g.last_height == f.last_height && g.last_block_hash == f.last_block_hash
            ||| g.last_height == f.last_height && f.phase is AwaitRestartHash
            ||| g.last_height == f.last_height + 1 && match f.phase {
                FollowerPhaseView::AwaitProcessed { hash, .. } => f.kind is Legacy && g.last_block_hash == hash,
                FollowerPhaseView::AwaitSaved { hash, .. } => f.kind is Rpc && g.last_block_hash == hash,
                _ => false,
            }
            ||| g.last_height < f.last_height && match f.kind {
                FollowerKind::Rpc { max_reorg } => f.last_height - g.last_height <= max_reorg,
                FollowerKind::Legacy => g.last_height == legacy_safe_height(f.last_height),
            }
            ||| g.last_height == f.last_height && f.kind is Legacy && legacy_safe_height(f.last_height) == f.last_height
        }),
{
    match (f.phase, e) {
        (FollowerPhaseView::AwaitHeader { height, hash }, FollowerEventView::Header(h)) => {
            let prev = hash_display_text(h.prev_blockhash@);
            if prev != f.last_block_hash {
                if let FollowerKind::Rpc { max_reorg } = f.kind {
                    let start = ReorgSearchView { old_tip: f.last_block_hash, cursor: prev, branch_start: prev, depth: 0, steps: 0 };
                    let (s, o) = search_next_round(start, max_reorg);
                    assert(after_search(f, s, o).0.last_height == f.last_height);
                    assert(after_search(f, s, o).0.last_block_hash == f.last_block_hash);
                }
            }
        },
        (FollowerPhaseView::Searching { search, waiting }, FollowerEventView::Header(h)) => {
            if let FollowerKind::Rpc { max_reorg } = f.kind {
                let (s, o) = search_on_parent(search, waiting, hash_display_text(h.prev_blockhash@), max_reorg);
                assert(after_search(f, s, o).0.last_height == f.last_height);
                assert(after_search(f, s, o).0.last_block_hash == f.last_block_hash);
            }
        },
        (FollowerPhaseView::AwaitRollback { new_height }, FollowerEventView::Done) => {
            if f.kind is Legacy {
                if f.last_height <= 6 && f.last_height > 0 {
                    assert(new_height == 0);
                }
            }
        },
        _ => {},
    }
}

/// A rollback of the explorer indexer undoes at least one and at most
/// `max_reorg` blocks, and never more blocks than were indexed; a walk back
/// deeper than that halts the follower.
pub proof fn law_rollback_depth_bounded(f: ChainFollowerView, e: FollowerEventView)
    requires
        follower_inv(f),
    ensures
        follower_next(f, e).1 matches FollowerActionView::RollBack(d) ==> {
            &&& f.kind matches FollowerKind::Rpc { max_reorg }
            &&& 1 <= d <= max_reorg
            &&& d <= f.last_height
            &&& follower_next(f, e).0.phase == (FollowerPhaseView::AwaitRollback { new_height: (f.last_height - d) as u32 })
        },
{
    law_follower_inv_preserved(f, e);
    match (f.phase, e) {
        (FollowerPhaseView::AwaitHeader { height, hash }, FollowerEventView::Header(h)) => {
            let prev = hash_display_text(h.prev_blockhash@);
            if prev != f.last_block_hash {
                if let FollowerKind::Rpc { max_reorg } = f.kind {
                    let start = ReorgSearchView { old_tip: f.last_block_hash, cursor: prev, branch_start: prev, depth: 0, steps: 0 };
                    lemma_next_round(start, max_reorg);
                }
            }
        },
        (FollowerPhaseView::Searching { search, waiting }, FollowerEventView::Header(h)) => {
            if let FollowerKind::Rpc { max_reorg } = f.kind {
                lemma_on_parent(search, waiting, hash_display_text(h.prev_blockhash@), max_reorg);
            }
        },
        _ => {},
    }
}

/// Why the last recorded block could not be read back.
#[derive(Debug, Clone, Copy, PartialEq, Eq)]
pub enum InfoError {
    /// The recorded hash is not 64 hexadecimal digits.
    InvalidHash,
}

/// Where the indexers resume: the last block recorded, as a row of height
/// and hash, or, with no row, the given starting block. The recorded hash is
/// read back into internal byte order.
pub fn resume_point(row: Option<(i32, String)>, start_height: u32, start_hash: [u8; 32]) -> (r: Result<InfoResponse, InfoError>)
    ensures
        match row {
            Some((h, hash)) => if hash@.len() == 64 && is_hex_text(hash@) {
                r matches Ok(info) && info.height == h as u32 && info.hash_rpc@ == hash@
                    && info.hash_p2p@ == reversed(hex_decode_text(hash@))
            } else {
                r == Err::<InfoResponse, InfoError>(InfoError::InvalidHash)
            },
            None => r matches Ok(info) && info.height == start_height && info.hash_rpc@ == hash_display_text(start_hash@)
                && info.hash_p2p == start_hash,
        },
{
    match row {
        Some((h, hash)) => match block_hash_from_str(hash.as_str()) {
            Ok(bytes) => Ok(InfoResponse { height: h as u32, hash_rpc: hash, hash_p2p: bytes }),
            Err(_) => Err(InfoError::InvalidHash),
        },
        None => Ok(InfoResponse { height: start_height, hash_rpc: block_hash_to_string(&start_hash), hash_p2p: start_hash }),
    }
}

/// A block recorded as the last one indexed, its height stored as a signed
/// 32-bit number and its hash as displayed text, reads back as the same
/// height and the same hash bytes.
pub proof fn law_recorded_block_reads_back(height: u32, hash: Seq<u8>)
    requires
        hash.len() == 32,
    ensures
        (height as i32) as u32 == height,
        hash_display_text(hash).len() == 64,
        is_hex_text(hash_display_text(hash)),
        reversed(hex_decode_text(hash_display_text(hash))) == hash,
{
    assert((height as i32) as u32 == height) by (bit_vector);
    law_hex_round_trip(reversed(hash));
    lemma_reversed_twice(hash);
}

/// The state a follower reaches from `f` through the events, one step each.
pub open spec fn follower_run(f: ChainFollowerView, events: Seq<FollowerEventView>) -> ChainFollowerView
    decreases events.len(),
{
    if events.len() == 0 {
        f
    } else {
        follower_next(follower_run(f, events.drop_last()), events.last()).0
    }
}

/// A new follower, as `ChainFollower::new` makes it.
pub open spec fn new_follower(last_height: u32, last_block_hash: Seq<char>, kind: FollowerKind) -> ChainFollowerView {
    ChainFollowerView { last_height, last_block_hash, kind, phase: FollowerPhaseView::AwaitTip }
}

proof fn lemma_run_keeps_inv(f: ChainFollowerView, events: Seq<FollowerEventView>)
    requires
        follower_inv(f),
    ensures
        follower_inv(follower_run(f, events)),
    decreases events.len(),
{
    if events.len() > 0 {
        lemma_run_keeps_inv(f, events.drop_last());
        law_follower_inv_preserved(follower_run(f, events.drop_last()), events.last());
    }
}

/// On every run of a follower from its start, whatever the events: each
/// state keeps the follower's invariant; a block is processed only right
/// above the last indexed block, when its header names that block as parent
/// and its proof of work is valid; a block is recorded as the last one
/// indexed only by the explorer indexer, once the block right above it was
/// processed, and the record is of the last indexed block; and a rollback
/// undoes at least one and at most `max_reorg` blocks, never more than were
/// indexed.
pub proof fn law_every_run(
    last_height: u32,
    last_block_hash: Seq<char>,
    kind: FollowerKind,
    events: Seq<FollowerEventView>,
    e: FollowerEventView,
)
    ensures
        follower_inv(follower_run(new_follower(last_height, last_block_hash, kind), events)),
        ({
            let f = follower_run(new_follower(last_height, last_block_hash, kind), events);
            follower_next(f, e).1 matches FollowerActionView::ProcessBlock { hash, header } ==> {
                &&& hash_display_text(header.prev_blockhash@) == f.last_block_hash
                &&& proof_of_work_valid(header_bytes(header))
                &&& f.phase == (FollowerPhaseView::AwaitHeader { height: (f.last_height + 1) as u32, hash })
                &&& e == FollowerEventView::Header(header)
            }
        }),
        ({
            let f = follower_run(new_follower(last_height, last_block_hash, kind), events);
            follower_next(f, e).1 matches FollowerActionView::SaveInfo { height, hash } ==> {
                &&& f.kind is Rpc
                &&& e == FollowerEventView::Done
                &&& f.phase matches FollowerPhaseView::AwaitProcessed { height: processed, .. } && processed == height + 1
                &&& height == f.last_height
                &&& hash == f.last_block_hash
            }
        }),
        ({
            let f = follower_run(new_follower(last_height, last_block_hash, kind), events);
            follower_next(f, e).1 matches FollowerActionView::RollBack(d) ==> {
                &&& f.kind matches FollowerKind::Rpc { max_reorg }
                &&& 1 <= d <= max_reorg
                &&& d <= f.last_height
            }
        }),
{
    let start = new_follower(last_height, last_block_hash, kind);
    lemma_run_keeps_inv(start, events);
    let f = follower_run(start, events);
    law_process_only_linked_valid_blocks(f, e);
    law_checkpoint_after_processing(f, e);
    law_rollback_depth_bounded(f, e);
}

/// The `n`-th ancestor of a block, each parent given by `parent`.
pub open spec fn ancestor(parent: spec_fn(Seq<char>) -> Seq<char>, h: Seq<char>, n: nat) -> Seq<char>
    decreases n,
{
    if n == 0 {
        h
    } else {
        parent(ancestor(parent, h, (n - 1) as nat))
    }
}

/// The walk back when each header asked for is answered from the chain
/// `parent`, for at most `fuel` answers.
pub open spec fn search_drive(
    s: ReorgSearchView,
    o: SearchOutcome,
    parent: spec_fn(Seq<char>) -> Seq<char>,
    max: u32,
    fuel: nat,
) -> SearchOutcome
    decreases fuel,
{
    match o {
        SearchOutcome::Fetch(w, h) => if fuel == 0 {
            o
        } else {
            let (s2, o2) = search_on_parent(s, w, parent(h), max);
            search_drive(s2, o2, parent, max, (fuel - 1) as nat)
        },
        _ => o,
    }
}

/// The walk in round `r`, having reached the `i`-th ancestor of the new
/// block's parent `start`, against the `(r - 1)`-th ancestor of the tip.
spec fn round_state(parent: spec_fn(Seq<char>) -> Seq<char>, tip: Seq<char>, start: Seq<char>, r: nat, i: nat) -> ReorgSearchView {
    ReorgSearchView {
        old_tip: ancestor(parent, tip, (r - 1) as nat),
        cursor: ancestor(parent, start, i),
        branch_start: start,
        depth: r as u32,
        steps: i as u32,
    }
}

proof fn lemma_round_finds(
    parent: spec_fn(Seq<char>) -> Seq<char>,
    tip: Seq<char>,
    start: Seq<char>,
    max: u32,
    k: nat,
    j: nat,
    r: nat,
    i: nat,
    fuel: nat,
)
    requires
        k < max,
        j <= max,
        ancestor(parent, tip, k) == ancestor(parent, start, j),
        1 <= r <= k + 1,
        i <= max,
        forall|m: nat| m < i ==> ancestor(parent, tip, (r - 1) as nat) != #[trigger] ancestor(parent, start, m),
        fuel >= (k + 1 - r) * (max + 1) + (max - i),
    ensures
        ({
            let (s, o) = search_in_round(round_state(parent, tip, start, r, i), max);
            search_drive(s, o, parent, max, fuel) matches SearchOutcome::Found(d) && 1 <= d <= k + 1
        }),
    decreases k + 1 - r, max - i,
{
    let st = round_state(parent, tip, start, r, i);
    let old = ancestor(parent, tip, (r - 1) as nat);
    assert(st.old_tip == old);
    if old == ancestor(parent, start, i) {
        assert(search_in_round(st, max) == (st, SearchOutcome::Found(r as u32)));
        assert(search_drive(st, SearchOutcome::Found(r as u32), parent, max, fuel) == SearchOutcome::Found(r as u32));
    } else if i == max {
        if r == k + 1 {
            if j < i {
                assert(old != ancestor(parent, start, j));
            }
            assert(false);
        }
        assert((k + 1 - r) * (max + 1) >= max + 1) by (nonlinear_arith)
            requires
                r <= k,
        ;
        assert(search_in_round(st, max) == (st, SearchOutcome::Fetch(SearchWait::OldBranch, old)));
        assert(parent(old) == ancestor(parent, tip, r));
        let s3 = ReorgSearchView { old_tip: ancestor(parent, tip, r), ..st };
        let step = search_on_parent(st, SearchWait::OldBranch, parent(old), max);
        assert(step == search_next_round(s3, max));
        assert(search_drive(st, SearchOutcome::Fetch(SearchWait::OldBranch, old), parent, max, fuel)
            == search_drive(step.0, step.1, parent, max, (fuel - 1) as nat));
        if ancestor(parent, tip, r) == s3.cursor {
            assert(step == (s3, SearchOutcome::Found(r as u32)));
        } else {
            let next = ReorgSearchView { depth: next_count(s3.depth), steps: 0, cursor: s3.branch_start, ..s3 };
            assert(ancestor(parent, start, 0) == start);
            assert(((r + 1) - 1) as nat == r);
            assert(next == round_state(parent, tip, start, r + 1, 0));
            assert(step == search_in_round(next, max));
            assert((k + 1 - r) * (max + 1) + (max - i) - 1 >= (k + 1 - (r + 1)) * (max + 1) + (max - 0)) by (nonlinear_arith)
                requires
                    r <= k,
                    i == max,
            ;
            lemma_round_finds(parent, tip, start, max, k, j, r + 1, 0, (fuel - 1) as nat);
        }
    } else {
        let s1 = ReorgSearchView { steps: next_count(st.steps), ..st };
        assert(search_in_round(st, max) == (s1, SearchOutcome::Fetch(SearchWait::NewBranch, st.cursor)));
        let child = ancestor(parent, start, i + 1);
        assert(parent(ancestor(parent, start, i)) == child);
        let s2 = ReorgSearchView { cursor: child, ..s1 };
        assert(s2 == round_state(parent, tip, start, r, i + 1));
        let step = search_on_parent(s1, SearchWait::NewBranch, child, max);
        assert(step == search_in_round(s2, max));
        assert(search_drive(s1, SearchOutcome::Fetch(SearchWait::NewBranch, st.cursor), parent, max, fuel)
            == search_drive(step.0, step.1, parent, max, (fuel - 1) as nat));
        assert forall|m: nat| m < i + 1 implies old != #[trigger] ancestor(parent, start, m) by {
            if m < i {
            }
        }
        lemma_round_finds(parent, tip, start, max, k, j, r, i + 1, (fuel - 1) as nat);
    }
}

/// The walk back finds any common ancestor within the allowed depth: when
/// the `k`-th ancestor of the indexed tip is the `j`-th ancestor of the new
/// block's parent `start` (`k` below `max_reorg`, `j` at most `max_reorg`),
/// and each header asked for is answered with its parent from the chain,
/// the walk ends in `Found(d)` with `1 <= d <= k + 1`: the follower rolls
/// back `d` blocks (when that many were indexed) instead of halting. Each
/// round compares one more ancestor of the tip with the ancestors of `start`
/// from `start` itself on.
pub proof fn law_walk_back_finds_common_ancestor(
    parent: spec_fn(Seq<char>) -> Seq<char>,
    tip: Seq<char>,
    start: Seq<char>,
    max_reorg: u32,
    k: nat,
    j: nat,
)
    requires
        tip != start,
        k < max_reorg,
        j <= max_reorg,
        ancestor(parent, tip, k) == ancestor(parent, start, j),
    ensures
        ({
            let s0 = ReorgSearchView { old_tip: tip, cursor: start, branch_start: start, depth: 0, steps: 0 };
            let (s, o) = search_next_round(s0, max_reorg);
            search_drive(s, o, parent, max_reorg, ((max_reorg + 1) * (max_reorg + 1)) as nat)
                matches SearchOutcome::Found(d) && 1 <= d <= k + 1
        }),
{
    let s0 = ReorgSearchView { old_tip: tip, cursor: start, branch_start: start, depth: 0, steps: 0 };
    let first = ReorgSearchView { depth: next_count(s0.depth), steps: 0, cursor: s0.branch_start, ..s0 };
    assert(ancestor(parent, tip, 0) == tip);
    assert(ancestor(parent, start, 0) == start);
    assert(first == round_state(parent, tip, start, 1, 0));
    assert((max_reorg + 1) * (max_reorg + 1) >= k * (max_reorg + 1) + max_reorg) by (nonlinear_arith)
        requires
            k < max_reorg,
    ;
    lemma_round_finds(parent, tip, start, max_reorg, k, j, 1, 0, ((max_reorg + 1) * (max_reorg + 1)) as nat);
}

} // verus!
