use vstd::prelude::*;
use crate::catalog::{build_index, index_wf, indexed_as, kept, IndexedItem, ListedItem};
use crate::command::CommandError;
use crate::config::Config;
use crate::fields::{
    display_selection_items, extract, filled, is_filled, handles, offered_slots, selection_of, titled_by_slot,
    DetailField, Entry, Selection, CCNUM_SLOT, CVV_SLOT, EXPIRY_SLOT, OTP_SLOT, PASSWORD_SLOT,
    USERNAME_SLOT,
};
use crate::ranking::{as_ints, is_ranking, item_score, score, top_ranked};
use crate::catalog::views;

verus! {

/// Where the two-stage flow stands.
pub enum Stage {
    /// Queries rank the items of the index.
    Searching,
    /// The fields of one item are on show; `query` is the text that led here.
    FieldPicking { selection: Selection, query: String },
}

/// What the host is to do after a pick.
#[derive(Debug, PartialEq, Eq)]
pub enum Action {
    /// Fetch the detail record of the item with this identifier, then hand it
    /// to `Session::detail_fetched`.
    FetchDetail(String),
    /// Mint a one-time password for the item with this identifier, then hand
    /// the output to `otp_fetched`.
    FetchOtp(String),
    /// Copy this value.
    Copy(String),
    /// Show the new list of results.
    Refresh,
    /// End the flow without a payload.
    Close,
}

/// The state of one session of the picker.
pub struct Session {
    pub config: Config,
    /// The index, built once.
    pub items: Vec<IndexedItem>,
    /// The last query that was ranked against the index.
    pub input: Option<String>,
    pub stage: Stage,
    /// Why loading the catalog failed, if it did; such a session offers nothing.
    pub failure: Option<CommandError>,
}

/// `q` with the prefix `p` taken off, where it starts with `p`.
pub open spec fn strip_prefix(p: Seq<char>, q: Seq<char>) -> Option<Seq<char>> {
    if p.len() <= q.len() && q.subrange(0, p.len() as int) == p {
        Some(q.subrange(p.len() as int, q.len() as int))
    } else {
        None
    }
}

/// The score of each indexed item against a query, in index order.
pub open spec fn scores_of(items: Seq<IndexedItem>, query: Seq<char>) -> Seq<i64> {
    Seq::new(
        items.len(),
        |k: int| item_score(items[k].item.title@, views(items[k].item.domains@), query),
    )
}

/// The handles of a list of results, as integers.
pub open spec fn handle_ints(r: Seq<Entry>) -> Seq<int> {
    r.map_values(|e: Entry| e.handle as int)
}

/// `r` is what a search of `items` for `query` offers: the ranked items,
/// each titled with its item's title.
pub open spec fn is_search_result(items: Seq<IndexedItem>, max: nat, query: Seq<char>, r: Seq<Entry>) -> bool {
    &&& is_ranking(scores_of(items, query), max, handle_ints(r))
    &&& forall|k: int| 0 <= k < r.len() ==> (#[trigger] r[k]).title@ == items[r[k].handle as int].item.title@
}

/// `query` without `prefix`, where it starts with it.
pub fn query_without_prefix<'a>(prefix: &str, query: &'a str) -> (r: Option<&'a str>)
    ensures
        r.is_some() == strip_prefix(prefix@, query@).is_some(),
        r.is_some() ==> r.unwrap()@ == strip_prefix(prefix@, query@).unwrap(),
{
    let plen = prefix.unicode_len();
    let qlen = query.unicode_len();
    if plen > qlen {
        return None;
    }
    let mut i: usize = 0;
    while i < plen
        invariant
            i <= plen <= qlen,
            plen == prefix@.len(),
            qlen == query@.len(),
            forall|j: int| 0 <= j < i ==> query@[j] == prefix@[j],
        decreases plen - i,
    {
        if query.get_char(i) != prefix.get_char(i) {
            assert(query@.subrange(0, plen as int)[i as int] != prefix@[i as int]);
            return None;
        }
        i += 1;
    }
    assert(query@.subrange(0, plen as int) =~= prefix@);
    Some(query.substring_char(plen, qlen))
}

/// The results of ranking the indexed items against `query`.
fn ranked_entries(items: &Vec<IndexedItem>, max_entries: usize, query: &str) -> (r: Vec<Entry>)
    requires
        index_wf(items@),
    ensures
        is_search_result(items@, max_entries as nat, query@, r@),
{
    let mut scores: Vec<i64> = Vec::new();
    let mut i: usize = 0;
    while i < items.len()
        invariant
            i <= items.len(),
            scores@ =~= scores_of(items@, query@).subrange(0, i as int),
        decreases items.len() - i,
    {
        scores.push(score(&items[i].item, query));
        i += 1;
    }
    assert(scores@ =~= scores_of(items@, query@));
    let top = top_ranked(&scores, max_entries);
    proof {
        assert forall|j: int| 0 <= j < top@.len() implies #[trigger] top@[j] < items@.len() by {
            assert(as_ints(top@)[j] == top@[j] as int);
        }
    }
    let mut r: Vec<Entry> = Vec::new();
    let mut k: usize = 0;
    while k < top.len()
        invariant
            k <= top.len(),
            index_wf(items@),
            forall|j: int| 0 <= j < top@.len() ==> #[trigger] top@[j] < items@.len(),
            r@.len() == k,
            forall|j: int| 0 <= j < k ==> (#[trigger] r@[j]).handle == top@[j] as u64 && r@[j].title@
                == items@[top@[j] as int].item.title@,
        decreases top.len() - k,
    {
        assert(as_ints(top@)[k as int] == top@[k as int] as int);
        let it = &items[top[k]];
        r.push(Entry { title: it.item.title.clone(), handle: it.handle });
        k += 1;
    }
    assert(handle_ints(r@) =~= as_ints(top@));
    r
}

/// `fin` is `old` after a search for `input` that answered `r`; the stage is
/// left to the caller.
pub open spec fn searched(old: Session, fin: Session, input: Seq<char>, r: Seq<Entry>) -> bool {
    &&& fin.config == old.config
    &&& fin.items == old.items
    &&& fin.failure == old.failure
    &&& if old.failure is None && strip_prefix(old.config.prefix@, input) is Some {
        &&& is_search_result(
            old.items@,
            old.config.max_entries as nat,
            strip_prefix(old.config.prefix@, input).unwrap(),
            r,
        )
        &&& fin.input matches Some(q) && q@ == input
    } else {
        r.len() == 0 && fin.input == old.input
    }
}

/// `r` is the action that copies `v`, or closes the flow where there is no `v`.
pub open spec fn copies(r: Action, v: Option<Seq<char>>) -> bool {
    match v {
        Some(x) => r matches Action::Copy(s) && s@ == x,
        None => r == Action::Close,
    }
}

/// A character of the Unicode White_Space property.
pub open spec fn is_white_space(c: char) -> bool {
    let u = c as u32;
    ||| 0x9 <= u <= 0xd
    ||| u == 0x20
    ||| u == 0x85
    ||| u == 0xa0
    ||| u == 0x1680
    ||| 0x2000 <= u <= 0x200a
    ||| u == 0x2028
    ||| u == 0x2029
    ||| u == 0x202f
    ||| u == 0x205f
    ||| u == 0x3000
}

/// `s` without its leading whitespace.
pub open spec fn trim_start(s: Seq<char>) -> Seq<char>
    decreases s.len(),
{
    if s.len() > 0 && is_white_space(s[0]) {
        trim_start(s.drop_first())
    } else {
        s
    }
}

/// `s` without its trailing whitespace.
pub open spec fn trim_end(s: Seq<char>) -> Seq<char>
    decreases s.len(),
{
    if s.len() > 0 && is_white_space(s.last()) {
        trim_end(s.drop_last())
    } else {
        s
    }
}

/// `s` without leading and trailing whitespace.
pub open spec fn trimmed(s: Seq<char>) -> Seq<char> {
    trim_end(trim_start(s))
}

/// Relies on str::trim: the text without leading and trailing characters of
/// the Unicode White_Space property.
#[verifier::external_body]
fn trim_text(s: &str) -> (r: String)
    ensures
        r@ == trimmed(s@),
{
    s.trim().to_string()
}

/// The action that ends a one-time password fetch: copy the trimmed code, or
/// close the flow where the fetch failed.
pub fn otp_fetched(output: Result<String, CommandError>) -> (r: Action)
    ensures
        output matches Ok(s) ==> r matches Action::Copy(c) && c@ == trimmed(s@),
        output is Err ==> r == Action::Close,
{
    match output {
        Ok(s) => Action::Copy(trim_text(s.as_str())),
        Err(_) => Action::Close,
    }
}

/// Copies a held value, or closes the flow where there is none.
fn copy_of(v: &Option<String>) -> (r: Action)
    ensures
        copies(r, crate::fields::opt_view(*v)),
{
    match v {
        Some(s) => Action::Copy(s.clone()),
        None => Action::Close,
    }
}

/// `r` copies `v` where it holds a non-empty value, and closes the flow
/// otherwise.
pub open spec fn copies_filled(r: Action, v: Option<Seq<char>>) -> bool {
    if filled(v) {
        copies(r, v)
    } else {
        r == Action::Close
    }
}

/// Copies a held non-empty value, or closes the flow.
fn copy_filled(v: &Option<String>) -> (r: Action)
    ensures
        copies_filled(r, crate::fields::opt_view(*v)),
{
    if is_filled(v) {
        copy_of(v)
    } else {
        Action::Close
    }
}

impl Session {
    /// Well-formed: dense handles, and a failed session is empty and searching.
    pub open spec fn wf(&self) -> bool {
        &&& index_wf(self.items@)
        &&& self.failure.is_some() ==> self.items@.len() == 0 && self.stage is Searching
    }

    /// Starts a session on the outcome of loading the catalog: its items, or
    /// the error that ended the loading.
    pub fn init(config: Config, listing: Result<Vec<ListedItem>, CommandError>) -> (r: Session)
        requires
            listing matches Ok(l) ==> l@.len() <= u64::MAX,
        ensures
            r.wf(),
            r.config == config,
            r.input is None,
            r.stage is Searching,
            listing matches Err(e) ==> r.failure == Some(e) && r.items@.len() == 0,
            listing matches Ok(l) ==> r.failure is None && r.items@.len() == kept(l@).len() && (
            forall|k: int| 0 <= k < r.items@.len() ==> indexed_as(#[trigger] r.items@[k], k, kept(l@)[k])),
    {
        match listing {
            Ok(l) => {
                let items = build_index(&l);
                Session { config, items, input: None, stage: Stage::Searching, failure: None }
            },
            Err(e) => Session {
                config,
                items: Vec::new(),
                input: None,
                stage: Stage::Searching,
                failure: Some(e),
            },
        }
    }
}

impl Session {
    /// Ranks the index against `input`, which must start with the configured
    /// prefix; a failed session offers nothing.
    pub fn display_matching_items(&mut self, input: &String) -> (r: Vec<Entry>)
        requires
            old(self).wf(),
        ensures
            final(self).wf(),
            final(self).stage == old(self).stage,
            searched(*old(self), *final(self), input@, r@),
    {
        if self.failure.is_some() {
            return Vec::new();
        }
        match query_without_prefix(self.config.prefix.as_str(), input.as_str()) {
            None => Vec::new(),
            Some(rest) => {
                let r = ranked_entries(&self.items, self.config.max_entries, rest);
                self.input = Some(input.clone());
                r
            },
        }
    }

    /// Answers a query. While the fields of an item are on show and the query
    /// is the one that led there, the same fields are offered again and the
    /// session is left as it was; any other query ends the field stage and
    /// searches the index.
    pub fn get_matches(&mut self, input: &String) -> (r: Vec<Entry>)
        requires
            old(self).wf(),
        ensures
            final(self).wf(),
            match old(self).stage {
                Stage::FieldPicking { selection, query } => if query@ == input@ {
                    &&& *final(self) == *old(self)
                    &&& handles(r@) == offered_slots(selection@)
                    &&& titled_by_slot(r@)
                } else {
                    &&& final(self).stage is Searching
                    &&& searched(*old(self), *final(self), input@, r@)
                },
                Stage::Searching => {
                    &&& final(self).stage is Searching
                    &&& searched(*old(self), *final(self), input@, r@)
                },
            },
    {
        let same = match &self.stage {
            Stage::FieldPicking { selection, query } => *query == *input,
            Stage::Searching => false,
        };
        if same {
            match &self.stage {
                Stage::FieldPicking { selection, query } => display_selection_items(selection),
                Stage::Searching => Vec::new(),
            }
        } else {
            self.stage = Stage::Searching;
            self.display_matching_items(input)
        }
    }

    /// Decides what a pick of the result with this handle calls for. While
    /// searching, the picked item's detail record is to be fetched; while the
    /// fields of an item are on show, the picked field is copied, or a fresh
    /// one-time password is to be minted. Anything else closes the flow.
    pub fn handler(&self, handle: Option<u64>) -> (r: Action)
        requires
            self.wf(),
        ensures
            match self.stage {
                Stage::Searching => match handle {
                    Some(h) if h < self.items@.len() => r matches Action::FetchDetail(id) && id@
                        == self.items@[h as int].item.external_id@,
                    _ => r == Action::Close,
                },
                Stage::FieldPicking { selection, query } => {
                    let v = selection@;
                    if handle == Some(USERNAME_SLOT) {
                        copies_filled(r, v.username)
                    } else if handle == Some(PASSWORD_SLOT) {
                        copies_filled(r, v.password)
                    } else if handle == Some(OTP_SLOT) && v.has_otp {
                        r matches Action::FetchOtp(id) && id@ == v.id
                    } else if handle == Some(CCNUM_SLOT) {
                        copies(r, v.ccnum)
                    } else if handle == Some(CVV_SLOT) {
                        copies(r, v.cvv)
                    } else if handle == Some(EXPIRY_SLOT) {
                        copies(r, v.expiry)
                    } else {
                        r == Action::Close
                    }
                },
            },
    {
        match &self.stage {
            Stage::Searching => match handle {
                Some(h) => {
                    if h < self.items.len() as u64 {
                        Action::FetchDetail(self.items[h as usize].item.external_id.clone())
                    } else {
                        Action::Close
                    }
                },
                None => Action::Close,
            },
            Stage::FieldPicking { selection, query } => match handle {
                Some(0) => copy_filled(&selection.username),
                Some(1) => copy_filled(&selection.password),
                Some(2) => {
                    if selection.has_otp {
                        Action::FetchOtp(selection.id.clone())
                    } else {
                        Action::Close
                    }
                },
                Some(3) => copy_of(&selection.ccnum),
                Some(4) => copy_of(&selection.cvv),
                Some(5) => copy_of(&selection.expiry),
                _ => Action::Close,
            },
        }
    }

    /// Takes in the detail record fetched for the item `external_id`: its
    /// fields go on show, for the last query that was ranked. A failed fetch,
    /// a failed session or one where nothing was ranked yet closes the flow
    /// and changes nothing.
    pub fn detail_fetched(
        &mut self,
        external_id: &String,
        record: Result<Vec<DetailField>, CommandError>,
    ) -> (r: Action)
        requires
            old(self).wf(),
        ensures
            final(self).wf(),
            (record is Err || old(self).input is None || old(self).failure is Some) ==> r
                == Action::Close && *final(self) == *old(self),
            (record is Ok && old(self).input is Some && old(self).failure is None) ==> {
                &&& r == Action::Refresh
                &&& final(self).config == old(self).config
                &&& final(self).items == old(self).items
                &&& final(self).input == old(self).input
                &&& final(self).failure == old(self).failure
                &&& final(self).stage matches Stage::FieldPicking { selection, query } && selection@
                    == selection_of(external_id@, record.unwrap()@) && query@
                    == old(self).input.unwrap()@
            },
    {
        if self.failure.is_some() {
            return Action::Close;
        }
        match (&self.input, record) {
            (Some(q), Ok(fields)) => {
                let selection = extract(external_id, &fields);
                self.stage = Stage::FieldPicking { selection, query: q.clone() };
                Action::Refresh
            },
            _ => Action::Close,
        }
    }
}

} // verus!
