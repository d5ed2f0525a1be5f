use vstd::prelude::*;
use vstd::utf8::{decode_utf8, valid_utf8};
use crate::error::{ErrorView, KeychainError};
use crate::model::{text_of, KeychainEntry, KeychainOptions};
use crate::text::{decimal_of, decimal_text};

verus! {

/// The status with which the native store reports success.
pub const ERR_SEC_SUCCESS: i32 = 0;

/// The status with which the native store reports that no item matched.
pub const ERR_SEC_ITEM_NOT_FOUND: i32 = -25300;

/// The attributes of a native keychain query.
#[derive(Debug, Clone, Copy, PartialEq, Eq)]
pub enum QueryAttribute {
    Class,
    Service,
    Account,
    AccessGroup,
    Synchronizable,
    ValueData,
    Label,
    ReturnData,
    MatchLimit,
}

/// The value of one attribute of a native keychain query.
#[derive(Debug, Clone, PartialEq, Eq)]
pub enum QueryValue {
    GenericPassword,
    Text(String),
    True,
    MatchOne,
}

pub enum QueryValueView {
    GenericPassword,
    Text(Seq<char>),
    True,
    MatchOne,
}

impl View for QueryValue {
    type V = QueryValueView;

    open spec fn view(&self) -> QueryValueView {
        match self {
            QueryValue::GenericPassword => QueryValueView::GenericPassword,
            QueryValue::Text(t) => QueryValueView::Text(t@),
            QueryValue::True => QueryValueView::True,
            QueryValue::MatchOne => QueryValueView::MatchOne,
        }
    }
}

/// An attribute dictionary handed to the native store, one pair per attribute.
pub type ItemQuery = Vec<(QueryAttribute, QueryValue)>;

pub open spec fn query_view(q: Seq<(QueryAttribute, QueryValue)>) -> Seq<(QueryAttribute, QueryValueView)> {
    q.map_values(|p: (QueryAttribute, QueryValue)| (p.0, p.1@))
}

/// One item that a native search returned, with the fields it carried.
#[derive(Debug, Clone, PartialEq, Eq)]
pub struct NativeRecord {
    pub service: Option<String>,
    pub account: Option<String>,
    pub data: Option<Vec<u8>>,
}

/// The settings of the native backend as values.
pub struct NativeSettings {
    pub team_id: Option<Seq<char>>,
    pub access_group: Option<Seq<char>>,
    pub synchronizable: bool,
}

/// The native (macOS) backend. It holds no entries: they live in the platform's store.
/// This type builds the attribute queries that the store is called with, and turns the
/// store's status codes and returned items into results; the calls themselves are made
/// by the host program between the two.
pub struct MacOSKeychain {
    team_id: Option<String>,
    access_group: Option<String>,
    synchronizable: bool,
}

impl View for MacOSKeychain {
    type V = NativeSettings;

    closed spec fn view(&self) -> NativeSettings {
        NativeSettings {
            team_id: text_of(self.team_id),
            access_group: text_of(self.access_group),
            synchronizable: self.synchronizable,
        }
    }
}

/// The access group as the store sees it: `"{team_id}.{access_group}"` when a team id is set.
pub open spec fn qualified_group(s: NativeSettings) -> Option<Seq<char>> {
    match s.access_group {
        None => None,
        Some(g) => match s.team_id {
            Some(t) => Some(t + "."@ + g),
            None => Some(g),
        },
    }
}

/// The query that selects generic passwords of `service` (and `account`, if given),
/// within the configured access group and synchronisation setting.
pub open spec fn base_query_of(s: NativeSettings, service: Seq<char>, account: Option<Seq<char>>) -> Seq<(QueryAttribute, QueryValueView)> {
    let q0 = seq![
        (QueryAttribute::Class, QueryValueView::GenericPassword),
        (QueryAttribute::Service, QueryValueView::Text(service)),
    ];
    let q1 = match account {
        Some(a) => q0.push((QueryAttribute::Account, QueryValueView::Text(a))),
        None => q0,
    };
    let q2 = match qualified_group(s) {
        Some(g) => q1.push((QueryAttribute::AccessGroup, QueryValueView::Text(g))),
        None => q1,
    };
    if s.synchronizable {
        q2.push((QueryAttribute::Synchronizable, QueryValueView::True))
    } else {
        q2
    }
}

/// The display label of an item: `"{service} ({account})"`.
pub open spec fn label_of(service: Seq<char>, account: Seq<char>) -> Seq<char> {
    service + " ("@ + account + ")"@
}

/// The query that adds an item holding `password`.
pub open spec fn add_query_of(s: NativeSettings, service: Seq<char>, account: Seq<char>, password: Seq<char>) -> Seq<(QueryAttribute, QueryValueView)> {
    base_query_of(s, service, Some(account))
        .push((QueryAttribute::ValueData, QueryValueView::Text(password)))
        .push((QueryAttribute::Label, QueryValueView::Text(label_of(service, account))))
}

/// The query that reads the data of at most one item.
pub open spec fn copy_query_of(s: NativeSettings, service: Seq<char>, account: Seq<char>) -> Seq<(QueryAttribute, QueryValueView)> {
    base_query_of(s, service, Some(account))
        .push((QueryAttribute::ReturnData, QueryValueView::True))
        .push((QueryAttribute::MatchLimit, QueryValueView::MatchOne))
}

/// The text that stands for `bytes` when they are read as UTF-8, invalid sequences
/// replaced by U+FFFD.
pub uninterp spec fn utf8_lossy(bytes: Seq<u8>) -> Seq<char>;

/// Relies on `String::from_utf8_lossy`: the text depends on the bytes alone, and is
/// the bytes' own decoding when they are valid UTF-8.
#[verifier::external_body]
fn decode_lossy(bytes: &Vec<u8>) -> (r: String)
    ensures
        r@ == utf8_lossy(bytes@),
        valid_utf8(bytes@) ==> r@ == decode_utf8(bytes@),
{
    String::from_utf8_lossy(bytes.as_slice()).into_owned()
}

/// A platform error whose message names the failed action and the status code.
pub open spec fn status_error(action: Seq<char>, status: i32) -> ErrorView {
    ErrorView::PlatformError(action + ": OSStatus "@ + decimal_of(status as int))
}

fn status_failure(action: &str, status: i32) -> (e: KeychainError)
    ensures
        e@ == status_error(action@, status),
{
    let mut msg = String::from_str(action);
    msg.append(": OSStatus ");
    msg.append(decimal_text(status).as_str());
    KeychainError::PlatformError(msg)
}

/// The triples `(service, account, password)` that a search yields from `records`:
/// the field that the search was keyed on is `fixed`; a record that lacks the other
/// key field or its data is skipped.
pub open spec fn found_in_records(by_service: bool, fixed: Seq<char>, records: Seq<NativeRecord>) -> Seq<(Seq<char>, Seq<char>, Seq<char>)>
    decreases records.len(),
{
    if records.len() == 0 {
        seq![]
    } else {
        let rest = found_in_records(by_service, fixed, records.drop_last());
        let r = records.last();
        let other = if by_service { r.account } else { r.service };
        match (other, r.data) {
            (Some(o), Some(d)) => rest.push(
                if by_service { (fixed, o@, utf8_lossy(d@)) } else { (o@, fixed, utf8_lossy(d@)) },
            ),
            _ => rest,
        }
    }
}

pub open spec fn entry_triples(entries: Seq<KeychainEntry>) -> Seq<(Seq<char>, Seq<char>, Seq<char>)> {
    entries.map_values(|e: KeychainEntry| (e.service@, e.account@, e.password@))
}

impl MacOSKeychain {
    /// A backend with the given options; absent options mean no team id, no access
    /// group and no synchronisation.
    pub fn new(options: Option<KeychainOptions>) -> (r: Result<MacOSKeychain, KeychainError>)
        ensures
            r is Ok,
            options is None ==> r->Ok_0@ == (NativeSettings { team_id: None, access_group: None, synchronizable: false }),
            options matches Some(o) ==> r->Ok_0@ == (NativeSettings {
                team_id: text_of(o.team_id),
                access_group: text_of(o.access_group),
                synchronizable: o.synchronizable == Some(true),
            }),
    {
        match options {
            Some(o) => Ok(MacOSKeychain {
                team_id: o.team_id,
                access_group: o.access_group,
                synchronizable: match o.synchronizable {
                    Some(b) => b,
                    None => false,
                },
            }),
            None => Ok(MacOSKeychain { team_id: None, access_group: None, synchronizable: false }),
        }
    }

    /// The name of the platform this backend serves.
    pub fn get_platform_info(&self) -> (r: &'static str)
        ensures
            r@ == "macos"@,
    {
        "macos"
    }

    fn push_pair(q: &mut ItemQuery, a: QueryAttribute, v: QueryValue)
        ensures
            query_view(final(q)@) == query_view(old(q)@).push((a, v@)),
    {
        q.push((a, v));
        assert(query_view(q@) =~= query_view(old(q)@).push((a, v@)));
    }

    fn qualified_group(&self) -> (r: Option<String>)
        ensures
            text_of(r) == qualified_group(self@),
    {
        match &self.access_group {
            None => None,
            Some(g) => match &self.team_id {
                Some(t) => {
                    let mut s = t.clone();
                    s.append(".");
                    s.append(g.as_str());
                    Some(s)
                },
                None => Some(g.clone()),
            },
        }
    }

    /// The attribute query for `service` and, if given, `account`.
    pub fn build_base_query(&self, service: &str, account: Option<&str>) -> (r: ItemQuery)
        ensures
            query_view(r@) == base_query_of(
                self@,
                service@,
                match account {
                    Some(a) => Some(a@),
                    None => None,
                },
            ),
    {
        let mut q: ItemQuery = Vec::new();
        assert(query_view(q@) =~= seq![]);
        Self::push_pair(&mut q, QueryAttribute::Class, QueryValue::GenericPassword);
        Self::push_pair(&mut q, QueryAttribute::Service, QueryValue::Text(String::from_str(service)));
        match account {
            Some(a) => Self::push_pair(&mut q, QueryAttribute::Account, QueryValue::Text(String::from_str(a))),
            None => {},
        }
        match self.qualified_group() {
            Some(g) => Self::push_pair(&mut q, QueryAttribute::AccessGroup, QueryValue::Text(g)),
            None => {},
        }
        if self.synchronizable {
            Self::push_pair(&mut q, QueryAttribute::Synchronizable, QueryValue::True);
        }
        assert(query_view(q@) =~= base_query_of(
            self@,
            service@,
            match account {
                Some(a) => Some(a@),
                None => None,
            },
        ));
        q
    }

    /// The query that adds an item holding `password` under `(service, account)`,
    /// labelled `"{service} ({account})"`.
    ///
    /// Setting a password is delete-then-add: the host first deletes any item under the
    /// key, whatever the outcome, then adds this query and reads the outcome with
    /// `add_outcome`. The two calls are not atomic; between them the key is absent.
    pub fn add_query(&self, service: &str, account: &str, password: &str) -> (r: ItemQuery)
        ensures
            query_view(r@) == add_query_of(self@, service@, account@, password@),
    {
        let mut q = self.build_base_query(service, Some(account));
        Self::push_pair(&mut q, QueryAttribute::ValueData, QueryValue::Text(String::from_str(password)));
        let mut label = String::from_str(service);
        label.append(" (");
        label.append(account);
        label.append(")");
        Self::push_pair(&mut q, QueryAttribute::Label, QueryValue::Text(label));
        q
    }

    /// The query that reads the password under `(service, account)`.
    pub fn copy_query(&self, service: &str, account: &str) -> (r: ItemQuery)
        ensures
            query_view(r@) == copy_query_of(self@, service@, account@),
    {
        let mut q = self.build_base_query(service, Some(account));
        Self::push_pair(&mut q, QueryAttribute::ReturnData, QueryValue::True);
        Self::push_pair(&mut q, QueryAttribute::MatchLimit, QueryValue::MatchOne);
        q
    }

    /// The result of adding an item, from the store's status.
    pub fn add_outcome(status: i32) -> (r: Result<(), KeychainError>)
        ensures
            status == ERR_SEC_SUCCESS ==> r is Ok,
            status != ERR_SEC_SUCCESS ==> r is Err && r->Err_0@ == status_error(
                "Failed to add keychain item"@,
                status,
            ),
    {
        if status == ERR_SEC_SUCCESS {
            Ok(())
        } else {
            Err(status_failure("Failed to add keychain item", status))
        }
    }

    /// The result of reading a password, from the store's status and the data it
    /// returned: "not found" is `None`, never an error.
    pub fn copy_outcome(status: i32, data: Option<Vec<u8>>) -> (r: Result<Option<String>, KeychainError>)
        ensures
            status == ERR_SEC_ITEM_NOT_FOUND ==> r == Ok::<Option<String>, KeychainError>(None),
            status == ERR_SEC_SUCCESS && data is Some ==> r is Ok && r->Ok_0 is Some
                && r->Ok_0->0@ == utf8_lossy(data->0@),
            status != ERR_SEC_ITEM_NOT_FOUND && !(status == ERR_SEC_SUCCESS && data is Some) ==> r is Err
                && r->Err_0@ == status_error("Failed to get keychain item"@, status),
    {
        if status == ERR_SEC_ITEM_NOT_FOUND {
            Ok(None)
        } else if status == ERR_SEC_SUCCESS && data.is_some() {
            match data {
                Some(bytes) => Ok(Some(decode_lossy(&bytes))),
                None => Ok(None),
            }
        } else {
            Err(status_failure("Failed to get keychain item", status))
        }
    }

    /// The result of deleting an item: `true` when one was removed, `false` when none
    /// was there.
    pub fn delete_outcome(status: i32) -> (r: Result<bool, KeychainError>)
        ensures
            status == ERR_SEC_SUCCESS ==> r == Ok::<bool, KeychainError>(true),
            status == ERR_SEC_ITEM_NOT_FOUND ==> r == Ok::<bool, KeychainError>(false),
            status != ERR_SEC_SUCCESS && status != ERR_SEC_ITEM_NOT_FOUND ==> r is Err
                && r->Err_0@ == status_error("Failed to delete keychain item"@, status),
    {
        if status == ERR_SEC_SUCCESS {
            Ok(true)
        } else if status == ERR_SEC_ITEM_NOT_FOUND {
            Ok(false)
        } else {
            Err(status_failure("Failed to delete keychain item", status))
        }
    }

    fn entries_from(by_service: bool, fixed: &str, records: &Vec<NativeRecord>) -> (r: Vec<KeychainEntry>)
        ensures
            entry_triples(r@) == found_in_records(by_service, fixed@, records@),
            forall|i: int| 0 <= i < r@.len() ==> (#[trigger] r@[i]).metadata is None,
    {
        let mut out: Vec<KeychainEntry> = Vec::new();
        let mut i: usize = 0;
        while i < records.len()
            invariant
                i <= records@.len(),
                entry_triples(out@) == found_in_records(by_service, fixed@, records@.subrange(0, i as int)),
                forall|j: int| 0 <= j < out@.len() ==> (#[trigger] out@[j]).metadata is None,
            decreases records@.len() - i,
        {
            let ghost prefix = records@.subrange(0, i as int + 1);
            assert(prefix.drop_last() =~= records@.subrange(0, i as int));
            assert(prefix.last() == records@[i as int]);
            let r = &records[i];
            let other = if by_service { &r.account } else { &r.service };
            match (other, &r.data) {
                (Some(o), Some(d)) => {
                    let password = decode_lossy(d);
                    let e = if by_service {
                        KeychainEntry {
                            service: String::from_str(fixed),
                            account: o.clone(),
                            password,
                            metadata: None,
                        }
                    } else {
                        KeychainEntry {
                            service: o.clone(),
                            account: String::from_str(fixed),
                            password,
                            metadata: None,
                        }
                    };
                    out.push(e);
                    assert(entry_triples(out@) =~= found_in_records(by_service, fixed@, prefix));
                },
                _ => {
                    assert(entry_triples(out@) =~= found_in_records(by_service, fixed@, prefix));
                },
            }
            i = i + 1;
        }
        assert(records@.subrange(0, records@.len() as int) =~= records@);
        out
    }

    fn search_outcome(by_service: bool, fixed: &str, status: i32, records: &Vec<NativeRecord>) -> (r: Result<Vec<KeychainEntry>, KeychainError>)
        ensures
            status == ERR_SEC_SUCCESS ==> r is Ok && entry_triples(r->Ok_0@) == found_in_records(
                by_service,
                fixed@,
                records@,
            ),
            status == ERR_SEC_ITEM_NOT_FOUND ==> r is Ok && r->Ok_0@.len() == 0,
            status != ERR_SEC_SUCCESS && status != ERR_SEC_ITEM_NOT_FOUND ==> r is Err
                && r->Err_0@ == status_error("Failed to search keychain"@, status),
            r is Ok ==> forall|i: int| 0 <= i < r->Ok_0@.len() ==> (#[trigger] r->Ok_0@[i]).metadata is None,
    {
        if status == ERR_SEC_SUCCESS {
            Ok(Self::entries_from(by_service, fixed, records))
        } else if status == ERR_SEC_ITEM_NOT_FOUND {
            Ok(Vec::new())
        } else {
            Err(status_failure("Failed to search keychain", status))
        }
    }

    /// The entries of `service` that a search returned: each record with an account and
    /// data gives one entry; a record missing either is skipped, not an error; "not
    /// found" is an empty list.
    pub fn credentials_outcome(service: &str, status: i32, records: Vec<NativeRecord>) -> (r: Result<Vec<KeychainEntry>, KeychainError>)
        ensures
            status == ERR_SEC_SUCCESS ==> r is Ok && entry_triples(r->Ok_0@) == found_in_records(
                true,
                service@,
                records@,
            ),
            status == ERR_SEC_ITEM_NOT_FOUND ==> r is Ok && r->Ok_0@.len() == 0,
            status != ERR_SEC_SUCCESS && status != ERR_SEC_ITEM_NOT_FOUND ==> r is Err
                && r->Err_0@ == status_error("Failed to search keychain"@, status),
            r is Ok ==> forall|i: int| 0 <= i < r->Ok_0@.len() ==> (#[trigger] r->Ok_0@[i]).metadata is None,
    {
        Self::search_outcome(true, service, status, &records)
    }

    /// The entries under `account` that a search returned: each record with a service
    /// and data gives one entry; a record missing either is skipped, not an error; "not
    /// found" is an empty list.
    pub fn by_account_outcome(account: &str, status: i32, records: Vec<NativeRecord>) -> (r: Result<Vec<KeychainEntry>, KeychainError>)
        ensures
            status == ERR_SEC_SUCCESS ==> r is Ok && entry_triples(r->Ok_0@) == found_in_records(
                false,
                account@,
                records@,
            ),
            status == ERR_SEC_ITEM_NOT_FOUND ==> r is Ok && r->Ok_0@.len() == 0,
            status != ERR_SEC_SUCCESS && status != ERR_SEC_ITEM_NOT_FOUND ==> r is Err
                && r->Err_0@ == status_error("Failed to search keychain"@, status),
            r is Ok ==> forall|i: int| 0 <= i < r->Ok_0@.len() ==> (#[trigger] r->Ok_0@[i]).metadata is None,
    {
        Self::search_outcome(false, account, status, &records)
    }
}

} // verus!
