//! Access-control lists: permission bits, ACL entries, evaluation and
//! parsing of the ACL stored in a JSON document.

use vstd::prelude::*;
use vstd::string::*;
use crate::json::{Json, JsonNumber};
use crate::text::{str_eq, owned};

verus! {

/// Permission bits granted by an ACL entry.
#[derive(Debug, Clone, Copy, PartialEq, Eq, Structural)]
pub struct Permissions {
    pub bits: u8,
}

pub const FETCH_BITS: u8 = 1;
pub const LIST_BITS: u8 = 2;
pub const NOTIFY_BITS: u8 = 4;
pub const CREATE_BITS: u8 = 8;
pub const MODIFY_BITS: u8 = 16;
/// FETCH | LIST | NOTIFY.
pub const READ_BITS: u8 = 7;
/// CREATE | MODIFY.
pub const WRITE_BITS: u8 = 24;
/// Every defined bit.
pub const ROOT_BITS: u8 = 31;

/// `held` includes every bit of `required`.
pub open spec fn bits_contain(held: u8, required: u8) -> bool {
    held & required == required
}

/// Only defined bits are set.
pub open spec fn bits_defined(bits: u8) -> bool {
    bits & !ROOT_BITS == 0
}

impl Permissions {
    /// The `NONE` permission set.
    pub fn none() -> (r: Permissions)
        ensures
            r.bits == 0,
    {
        Permissions { bits: 0 }
    }

    /// The `FETCH` permission set.
    pub fn fetch() -> (r: Permissions)
        ensures
            r.bits == FETCH_BITS,
    {
        Permissions { bits: FETCH_BITS }
    }

    /// The `LIST` permission set.
    pub fn list() -> (r: Permissions)
        ensures
            r.bits == LIST_BITS,
    {
        Permissions { bits: LIST_BITS }
    }

    /// The `NOTIFY` permission set.
    pub fn notify() -> (r: Permissions)
        ensures
            r.bits == NOTIFY_BITS,
    {
        Permissions { bits: NOTIFY_BITS }
    }

    /// The `CREATE` permission set.
    pub fn create() -> (r: Permissions)
        ensures
            r.bits == CREATE_BITS,
    {
        Permissions { bits: CREATE_BITS }
    }

    /// The `MODIFY` permission set.
    pub fn modify() -> (r: Permissions)
        ensures
            r.bits == MODIFY_BITS,
    {
        Permissions { bits: MODIFY_BITS }
    }

    /// The `READ` permission set.
    pub fn read() -> (r: Permissions)
        ensures
            r.bits == READ_BITS,
    {
        Permissions { bits: READ_BITS }
    }

    /// The `WRITE` permission set.
    pub fn write() -> (r: Permissions)
        ensures
            r.bits == WRITE_BITS,
    {
        Permissions { bits: WRITE_BITS }
    }

    /// The `ROOT` permission set.
    pub fn root() -> (r: Permissions)
        ensures
            r.bits == ROOT_BITS,
    {
        Permissions { bits: ROOT_BITS }
    }

    /// The raw bit mask.
    pub fn bits(&self) -> (r: u8)
        ensures
            r == self.bits,
    {
        self.bits
    }

    /// `Permissions::from_bits`: `None` when an undefined bit is set.
    pub fn from_bits(bits: u8) -> (r: Option<Permissions>)
        ensures
            r == if bits_defined(bits) { Some(Permissions { bits }) } else { None::<Permissions> },
    {
        if bits & !ROOT_BITS == 0 {
            Some(Permissions { bits })
        } else {
            None
        }
    }

    /// `Permissions::from_bits_truncate`: drops undefined bits.
    pub fn from_bits_truncate(bits: u8) -> (r: Permissions)
        ensures
            r.bits == bits & ROOT_BITS,
    {
        Permissions { bits: bits & ROOT_BITS }
    }

    /// Whether every bit of `other` is held.
    pub fn contains(&self, other: Permissions) -> (r: bool)
        ensures
            r == bits_contain(self.bits, other.bits),
    {
        self.bits & other.bits == other.bits
    }

    /// Union of two permission sets.
    pub fn union(&self, other: Permissions) -> (r: Permissions)
        ensures
            r.bits == self.bits | other.bits,
    {
        Permissions { bits: self.bits | other.bits }
    }
}

/// One ACL entry: the permissions it grants, to whom, and optionally the
/// resource kind it is limited to.
#[derive(Debug, Clone, PartialEq, Eq)]
pub struct AccessControlList {
    pub permissions: Permissions,
    pub principals: Vec<String>,
    pub scope: Option<String>,
}

/// A resource's access-control list.
#[derive(Debug, Clone, PartialEq, Eq)]
pub struct AccessControlStore {
    pub list: Vec<AccessControlList>,
    /// Last modification time (the epoch itself when unknown).
    pub last_mod_date: Timestamp,
}

/// An instant: seconds since the Unix epoch and the nanoseconds within that
/// second.
#[derive(Debug, Clone, Copy, PartialEq, Eq, Structural)]
pub struct Timestamp {
    pub secs: i64,
    pub nanos: u32,
}

/// The instant `(secs, nanos)` as a `Timestamp`.
pub open spec fn timestamp_of(t: (i64, u32)) -> Timestamp {
    Timestamp { secs: t.0, nanos: t.1 }
}

/// The principal identifiers of an entry.
pub open spec fn entry_principals(e: AccessControlList) -> Seq<Seq<char>> {
    e.principals@.map_values(|p: String| p@)
}

/// The entry names at least one of `principals`.
pub open spec fn entry_matches(e: AccessControlList, principals: Seq<Seq<char>>) -> bool {
    exists|i: int, j: int| #![trigger e.principals@[i], principals[j]]
        0 <= i < e.principals@.len() && 0 <= j < principals.len() && e.principals@[i]@ == principals[j]
}

/// The entry grants `required` to one of `principals`.
pub open spec fn entry_grants(e: AccessControlList, principals: Seq<Seq<char>>, required: u8) -> bool {
    bits_contain(e.permissions.bits, required) && entry_matches(e, principals)
}

/// The entry applies to resources of kind `kind` (no scope, or that scope).
pub open spec fn entry_in_scope(e: AccessControlList, kind: Seq<char>) -> bool {
    match e.scope {
        None => true,
        Some(s) => s@ == kind,
    }
}

/// Some entry grants `required` to one of `principals`.
pub open spec fn acl_grants(list: Seq<AccessControlList>, principals: Seq<Seq<char>>, required: u8) -> bool {
    exists|k: int| 0 <= k < list.len() && entry_grants(#[trigger] list[k], principals, required)
}

/// Some entry applying to `kind` grants `required` to one of `principals`.
pub open spec fn acl_grants_scoped(list: Seq<AccessControlList>, principals: Seq<Seq<char>>, required: u8, kind: Seq<char>) -> bool {
    exists|k: int| 0 <= k < list.len() && entry_in_scope(#[trigger] list[k], kind)
        && entry_grants(list[k], principals, required)
}

/// Union of the permissions of every entry naming one of `principals`.
pub open spec fn effective_bits(list: Seq<AccessControlList>, principals: Seq<Seq<char>>) -> u8
    decreases list.len(),
{
    if list.len() == 0 {
        0
    } else {
        let rest = effective_bits(list.drop_last(), principals);
        if entry_matches(list.last(), principals) { rest | list.last().permissions.bits } else { rest }
    }
}

/// The views of a list of strings.
pub open spec fn string_views(v: Seq<String>) -> Seq<Seq<char>> {
    v.map_values(|s: String| s@)
}

/// Whether one of `principals` equals `p`.
pub fn principal_listed(principals: &[String], p: &String) -> (r: bool)
    ensures
        r == exists|j: int| 0 <= j < principals@.len() && principals@[j]@ == p@,
{
    let n = principals.len();
    let mut j: usize = 0;
    while j < n
        invariant
            n == principals@.len(),
            j <= n,
            forall|k: int| 0 <= k < j ==> principals@[k]@ != p@,
        decreases n - j,
    {
        if principals[j] == *p {
            return true;
        }
        j = j + 1;
    }
    false
}

impl AccessControlList {
    /// Whether this entry names one of `principals`.
    pub fn matches(&self, principals: &[String]) -> (r: bool)
        ensures
            r == entry_matches(*self, string_views(principals@)),
    {
        let ghost ps = string_views(principals@);
        let n = self.principals.len();
        let mut i: usize = 0;
        while i < n
            invariant
                n == self.principals@.len(),
                i <= n,
                ps == string_views(principals@),
                forall|a: int, b: int| #![trigger self.principals@[a], ps[b]]
                    0 <= a < i && 0 <= b < ps.len() ==> self.principals@[a]@ != ps[b],
            decreases n - i,
        {
            if principal_listed(principals, &self.principals[i]) {
                proof {
                    let j = choose|j: int| 0 <= j < principals@.len() && principals@[j]@ == self.principals@[i as int]@;
                    assert(ps[j] == principals@[j]@);
                }
                return true;
            }
            proof {
                assert forall|b: int| 0 <= b < ps.len() implies self.principals@[i as int]@ != ps[b] by {
                    assert(ps[b] == principals@[b]@);
                }
            }
            i = i + 1;
        }
        false
    }
}

impl AccessControlStore {
    /// An empty ACL with an unknown modification time.
    pub fn empty() -> (r: AccessControlStore)
        ensures
            r.list@.len() == 0,
            r.last_mod_date == timestamp_of((0i64, 0u32)),
    {
        AccessControlStore { list: Vec::new(), last_mod_date: Timestamp { secs: 0, nanos: 0 } }
    }

    /// Whether some entry grants every bit of `required` to one of `principals`.
    pub fn check_permission(&self, principals: &[String], required: Permissions) -> (r: bool)
        ensures
            r == acl_grants(self.list@, string_views(principals@), required.bits),
    {
        let n = self.list.len();
        let mut k: usize = 0;
        while k < n
            invariant
                n == self.list@.len(),
                k <= n,
                forall|m: int| 0 <= m < k ==> !entry_grants(#[trigger] self.list@[m], string_views(principals@), required.bits),
            decreases n - k,
        {
            let e = &self.list[k];
            if e.permissions.contains(required) && e.matches(principals) {
                return true;
            }
            k = k + 1;
        }
        false
    }

    /// Like `check_permission`, but only entries without a scope or scoped to
    /// `kind` are considered.
    pub fn check_permission_scoped(&self, principals: &[String], required: Permissions, kind: &str) -> (r: bool)
        ensures
            r == acl_grants_scoped(self.list@, string_views(principals@), required.bits, kind@),
    {
        let n = self.list.len();
        let mut k: usize = 0;
        while k < n
            invariant
                n == self.list@.len(),
                k <= n,
                forall|m: int| 0 <= m < k ==> !(entry_in_scope(#[trigger] self.list@[m], kind@)
                    && entry_grants(self.list@[m], string_views(principals@), required.bits)),
            decreases n - k,
        {
            let e = &self.list[k];
            let in_scope = match &e.scope {
                None => true,
                Some(s) => str_eq(s.as_str(), kind),
            };
            if in_scope && e.permissions.contains(required) && e.matches(principals) {
                return true;
            }
            k = k + 1;
        }
        false
    }

    /// Union of the permissions of every entry that names one of `principals`.
    pub fn effective_permissions(&self, principals: &[String]) -> (r: Permissions)
        ensures
            r.bits == effective_bits(self.list@, string_views(principals@)),
    {
        let n = self.list.len();
        let mut acc: u8 = 0;
        let mut k: usize = 0;
        while k < n
            invariant
                n == self.list@.len(),
                k <= n,
                acc == effective_bits(self.list@.subrange(0, k as int), string_views(principals@)),
            decreases n - k,
        {
            proof {
                assert(self.list@.subrange(0, k + 1).drop_last() =~= self.list@.subrange(0, k as int));
            }
            let e = &self.list[k];
            if e.matches(principals) {
                acc = acc | e.permissions.bits;
            }
            k = k + 1;
        }
        proof {
            assert(self.list@.subrange(0, n as int) =~= self.list@);
        }
        Permissions { bits: acc }
    }
}

/// A granting entry contributes all its bits to the union.
pub proof fn lemma_union_keeps(a: u8, b: u8, r: u8)
    ensures
        bits_contain(a, r) ==> bits_contain(b | a, r),
        bits_contain(b, r) ==> bits_contain(b | a, r),
{
    assert(a & r == r ==> (b | a) & r == r) by (bit_vector);
    assert(b & r == r ==> (b | a) & r == r) by (bit_vector);
}

/// If some entry grants `required`, the union of matching entries holds it:
/// the access-check bits never deny what `check_permission` allows.
pub proof fn lemma_grant_implies_effective(list: Seq<AccessControlList>, principals: Seq<Seq<char>>, required: u8)
    requires
        acl_grants(list, principals, required),
    ensures
        bits_contain(effective_bits(list, principals), required),
    decreases list.len(),
{
    let k = choose|k: int| 0 <= k < list.len() && entry_grants(#[trigger] list[k], principals, required);
    let rest = list.drop_last();
    if k == list.len() - 1 {
        lemma_union_keeps(list.last().permissions.bits, effective_bits(rest, principals), required);
    } else {
        assert(rest[k] == list[k]);
        assert(acl_grants(rest, principals, required));
        lemma_grant_implies_effective(rest, principals, required);
        if entry_matches(list.last(), principals) {
            lemma_union_keeps(list.last().permissions.bits, effective_bits(rest, principals), required);
        }
    }
}

// ---------------------------------------------------------------------------
// Textual permission flags: "FETCH | LIST | NOTIFY"
// ---------------------------------------------------------------------------

pub open spec fn is_ws(c: char) -> bool {
    c == ' ' || c == '\t' || c == '\n' || c == '\r'
}

/// `s` without leading whitespace.
pub open spec fn trim_start(s: Seq<char>) -> Seq<char>
    decreases s.len(),
{
    if s.len() > 0 && is_ws(s[0]) { trim_start(s.drop_first()) } else { s }
}

/// `s` without trailing whitespace.
pub open spec fn trim_end(s: Seq<char>) -> Seq<char>
    decreases s.len(),
{
    if s.len() > 0 && is_ws(s.last()) { trim_end(s.drop_last()) } else { s }
}

pub open spec fn trim(s: Seq<char>) -> Seq<char> {
    trim_end(trim_start(s))
}

/// Position of the first `|` at or after `from`, or the length.
pub open spec fn bar_from(s: Seq<char>, from: int) -> int
    decreases s.len() - from,
{
    if from < 0 || from >= s.len() { s.len() as int } else if s[from] == '|' { from } else { bar_from(s, from + 1) }
}

/// The bits named by one flag name.
pub open spec fn flag_name_bits(t: Seq<char>) -> Option<u8> {
    if t == "FETCH"@ { Some(FETCH_BITS) }
    else if t == "LIST"@ { Some(LIST_BITS) }
    else if t == "NOTIFY"@ { Some(NOTIFY_BITS) }
    else if t == "CREATE"@ { Some(CREATE_BITS) }
    else if t == "MODIFY"@ { Some(MODIFY_BITS) }
    else if t == "READ"@ { Some(READ_BITS) }
    else if t == "WRITE"@ { Some(WRITE_BITS) }
    else if t == "ROOT"@ { Some(ROOT_BITS) }
    else { None }
}

/// Bits of the `|`-separated flag names in `s` (each trimmed, none empty).
pub open spec fn flag_list_bits(s: Seq<char>) -> Option<u8>
    decreases s.len(),
{
    let b = bar_from(s, 0);
    proof {
        lemma_bar_bounds(s, 0);
    }
    let head = flag_name_bits(trim(s.subrange(0, b)));
    if b >= s.len() {
        head
    } else {
        match (head, flag_list_bits(s.subrange(b + 1, s.len() as int))) {
            (Some(x), Some(y)) => Some(x | y),
            _ => None,
        }
    }
}

/// The bits a textual flag list denotes; blank text is the empty set.
pub open spec fn flags_text_bits(s: Seq<char>) -> Option<u8> {
    if trim(s).len() == 0 { Some(0) } else { flag_list_bits(s) }
}

proof fn lemma_bar_from(s: Seq<char>, from: int, i: int)
    requires
        0 <= from <= i <= s.len(),
        i == s.len() || s[i] == '|',
        forall|j: int| from <= j < i ==> s[j] != '|',
    ensures
        bar_from(s, from) == i,
    decreases i - from,
{
    if from < i {
        lemma_bar_from(s, from + 1, i);
    }
}

fn is_ws_char(c: char) -> (r: bool)
    ensures
        r == is_ws(c),
{
    c == ' ' || c == '\t' || c == '\n' || c == '\r'
}

/// `s` with surrounding whitespace removed.
pub fn trim_str(s: &str) -> (r: &str)
    ensures
        r@ == trim(s@),
{
    let n = s.unicode_len();
    let mut a: usize = 0;
    assert(s@.subrange(0, n as int) =~= s@);
    while a < n && is_ws_char(s.get_char(a))
        invariant
            n == s@.len(),
            a <= n,
            trim_start(s@) == trim_start(s@.subrange(a as int, n as int)),
        decreases n - a,
    {
        proof {
            assert(s@.subrange(a as int, n as int).drop_first() =~= s@.subrange(a + 1, n as int));
        }
        a = a + 1;
    }
    let ghost ts = s@.subrange(a as int, n as int);
    assert(trim_start(ts) == ts);
    let mut b: usize = n;
    while b > a && is_ws_char(s.get_char(b - 1))
        invariant
            n == s@.len(),
            a <= b <= n,
            trim_end(ts) == trim_end(s@.subrange(a as int, b as int)),
        decreases b - a,
    {
        proof {
            assert(s@.subrange(a as int, b as int).drop_last() =~= s@.subrange(a as int, b - 1));
        }
        b = b - 1;
    }
    let r = s.substring_char(a, b);
    proof {
        assert(trim_end(r@) == r@);
    }
    r
}

/// The bits of one flag name.
pub fn flag_name_to_bits(t: &str) -> (r: Option<u8>)
    ensures
        r == flag_name_bits(t@),
{
    proof {
        reveal_strlit("FETCH");
        reveal_strlit("LIST");
        reveal_strlit("NOTIFY");
        reveal_strlit("CREATE");
        reveal_strlit("MODIFY");
        reveal_strlit("READ");
        reveal_strlit("WRITE");
        reveal_strlit("ROOT");
    }
    if str_eq(t, "FETCH") { Some(FETCH_BITS) }
    else if str_eq(t, "LIST") { Some(LIST_BITS) }
    else if str_eq(t, "NOTIFY") { Some(NOTIFY_BITS) }
    else if str_eq(t, "CREATE") { Some(CREATE_BITS) }
    else if str_eq(t, "MODIFY") { Some(MODIFY_BITS) }
    else if str_eq(t, "READ") { Some(READ_BITS) }
    else if str_eq(t, "WRITE") { Some(WRITE_BITS) }
    else if str_eq(t, "ROOT") { Some(ROOT_BITS) }
    else { None }
}

fn flag_list_to_bits(s: &str) -> (r: Option<u8>)
    ensures
        r == flag_list_bits(s@),
    decreases s@.len(),
{
    let n = s.unicode_len();
    let b = match crate::text::find_char_from(s, '|', 0) {
        Some(i) => i,
        None => n,
    };
    proof {
        lemma_bar_from(s@, 0, b as int);
    }
    let head = flag_name_to_bits(trim_str(s.substring_char(0, b)));
    if b >= n {
        head
    } else {
        match head {
            None => None,
            Some(x) => match flag_list_to_bits(s.substring_char(b + 1, n)) {
                Some(y) => Some(x | y),
                None => None,
            },
        }
    }
}

/// Parses the textual form of a permission set ("FETCH | LIST").
pub fn parse_flags_text(s: &str) -> (r: Option<Permissions>)
    ensures
        match flags_text_bits(s@) {
            Some(b) => bits_defined(b) && r == Some(Permissions { bits: b }),
            None => r is None,
        },
{
    if trim_str(s).unicode_len() == 0 {
        proof { assert(0u8 & !ROOT_BITS == 0) by (bit_vector); }
        return Some(Permissions { bits: 0 });
    }
    match flag_list_to_bits(s) {
        Some(b) => {
            proof { lemma_flag_list_defined(s@); }
            Some(Permissions { bits: b })
        },
        None => None,
    }
}

proof fn lemma_flag_list_defined(s: Seq<char>)
    ensures
        flag_list_bits(s) matches Some(b) ==> bits_defined(b),
    decreases s.len(),
{
    let b = bar_from(s, 0);
    if b < s.len() {
        lemma_bar_bounds(s, 0);
        lemma_flag_list_defined(s.subrange(b + 1, s.len() as int));
    }
    assert forall|x: u8, y: u8| bits_defined(x) && bits_defined(y) implies bits_defined(x | y) by {
        assert(x & !31u8 == 0 && y & !31u8 == 0 ==> (x | y) & !31u8 == 0) by (bit_vector);
    }
    assert forall|x: u8| #[trigger] flag_name_bits(trim(s.subrange(0, b))) == Some(x) implies bits_defined(x) by {
        assert(1u8 & !31u8 == 0 && 2u8 & !31u8 == 0 && 4u8 & !31u8 == 0 && 8u8 & !31u8 == 0
            && 16u8 & !31u8 == 0 && 7u8 & !31u8 == 0 && 24u8 & !31u8 == 0 && 31u8 & !31u8 == 0) by (bit_vector);
    }
}

pub proof fn lemma_bar_bounds(s: Seq<char>, from: int)
    requires
        0 <= from,
    ensures
        from <= s.len() ==> from <= bar_from(s, from) <= s.len(),
    decreases s.len() - from,
{
    if from < s.len() && s[from] != '|' {
        lemma_bar_bounds(s, from + 1);
    }
}

// ---------------------------------------------------------------------------
// Reading an ACL out of a stored document
// ---------------------------------------------------------------------------

/// An ACL entry as values: bits, principal names, optional scope.
pub struct AclEntryView {
    pub bits: u8,
    pub principals: Seq<Seq<char>>,
    pub scope: Option<Seq<char>>,
}

/// The values an entry holds.
pub open spec fn entry_view(e: AccessControlList) -> AclEntryView {
    AclEntryView {
        bits: e.permissions.bits,
        principals: string_views(e.principals@),
        scope: match e.scope { Some(s) => Some(s@), None => None },
    }
}

/// The instant an RFC 3339 timestamp denotes, when it parses: seconds since
/// the epoch and the nanoseconds within that second.
pub uninterp spec fn rfc3339_instant(s: Seq<char>) -> Option<(i64, u32)>;

/// Parses an RFC 3339 timestamp with `chrono::DateTime::parse_from_rfc3339`
/// and gives its instant as `timestamp()` and `timestamp_subsec_nanos()`,
/// which together keep all of its precision. The result is a function of
/// the text alone; which texts parse is chrono's grammar and is not
/// restated here.
#[verifier::external_body]
pub(crate) fn rfc3339_parse(s: &str) -> (r: Option<(i64, u32)>)
    ensures
        r == rfc3339_instant(s@),
{
    match chrono::DateTime::parse_from_rfc3339(s) {
        Ok(dt) => Some((dt.timestamp(), dt.timestamp_subsec_nanos())),
        Err(_) => None,
    }
}

/// `Number::as_u64`.
pub open spec fn number_as_u64(n: JsonNumber) -> Option<u64> {
    match n {
        JsonNumber::PosInt(u) => Some(u),
        _ => None,
    }
}

/// The permission bits an ACL entry document declares: an integer (truncated
/// to its low byte, undefined bits rejected) or the textual flag form.
pub open spec fn entry_bits(e: Json) -> Option<u8> {
    match e.field("permissions"@) {
        Some(Json::Number(n)) => match number_as_u64(n) {
            Some(u) => if bits_defined((u % 256) as u8) { Some((u % 256) as u8) } else { None },
            None => None,
        },
        Some(Json::String(t)) => flags_text_bits(t@),
        _ => None,
    }
}

/// The string items of an array, others skipped.
pub open spec fn string_items(a: Seq<Json>) -> Seq<Seq<char>>
    decreases a.len(),
{
    if a.len() == 0 {
        Seq::empty()
    } else {
        let rest = string_items(a.drop_last());
        match a.last() {
            Json::String(s) => rest.push(s@),
            _ => rest,
        }
    }
}

/// The entry an ACL entry document denotes, if it is well formed.
pub open spec fn parsed_entry(e: Json) -> Option<AclEntryView> {
    match (entry_bits(e), e.field("principals"@)) {
        (Some(b), Some(Json::Array(items))) => Some(AclEntryView {
            bits: b,
            principals: string_items(items@),
            scope: match e.field("scope"@) { Some(v) => v.str_view(), None => None },
        }),
        _ => None,
    }
}

/// The entries of an ACL list document, if every entry is well formed.
pub open spec fn parsed_entries(items: Seq<Json>) -> Option<Seq<AclEntryView>>
    decreases items.len(),
{
    if items.len() == 0 {
        Some(Seq::empty())
    } else {
        match (parsed_entries(items.drop_last()), parsed_entry(items.last())) {
            (Some(es), Some(e)) => Some(es.push(e)),
            _ => None,
        }
    }
}

/// The `acl` object of a document.
pub open spec fn acl_object(doc: Json) -> Option<Json> {
    match doc.field("acl"@) {
        Some(Json::Object(o)) => Some(Json::Object(o)),
        _ => None,
    }
}

/// The entries of a document's ACL, if the document carries a well-formed one.
pub open spec fn parsed_acl_entries(doc: Json) -> Option<Seq<AclEntryView>> {
    match acl_object(doc) {
        Some(a) => match a.field("list"@) {
            Some(Json::Array(items)) => parsed_entries(items@),
            _ => None,
        },
        None => None,
    }
}

/// The modification time recorded in a document's ACL (the epoch when
/// absent or unparseable).
pub open spec fn parsed_acl_date(doc: Json) -> Timestamp {
    match acl_object(doc) {
        Some(a) => match a.field("last_mod_date"@) {
            Some(Json::String(t)) => match rfc3339_instant(t@) {
                Some(m) => timestamp_of(m),
                None => timestamp_of((0i64, 0u32)),
            },
            _ => timestamp_of((0i64, 0u32)),
        },
        None => timestamp_of((0i64, 0u32)),
    }
}

/// The result `parse_acl` returns agrees with the document.
pub open spec fn acl_parsed_from(r: Result<AccessControlStore, ()>, doc: Json) -> bool {
    match parsed_acl_entries(doc) {
        None => r is Err,
        Some(es) => r matches Ok(store) && store.list@.map_values(|e: AccessControlList| entry_view(e)) == es
            && store.last_mod_date == parsed_acl_date(doc),
    }
}

fn collect_strings(items: &Vec<Json>) -> (r: Vec<String>)
    ensures
        string_views(r@) == string_items(items@),
{
    let n = items.len();
    let mut out: Vec<String> = Vec::new();
    let mut i: usize = 0;
    while i < n
        invariant
            n == items@.len(),
            i <= n,
            string_views(out@) =~= string_items(items@.subrange(0, i as int)),
        decreases n - i,
    {
        proof {
            assert(items@.subrange(0, i + 1).drop_last() =~= items@.subrange(0, i as int));
        }
        match &items[i] {
            Json::String(s) => {
                out.push(s.clone());
                proof {
                    assert(string_views(out@) =~= string_views(out@.drop_last()).push(s@));
                }
            },
            _ => {},
        }
        i = i + 1;
    }
    proof {
        assert(items@.subrange(0, n as int) =~= items@);
    }
    out
}

fn parse_entry(e: &Json) -> (r: Option<AccessControlList>)
    ensures
        match parsed_entry(*e) {
            Some(v) => r matches Some(x) && entry_view(x) == v,
            None => r is None,
        },
{
    proof {
        reveal_strlit("permissions");
        reveal_strlit("principals");
        reveal_strlit("scope");
    }
    let bits: u8 = match e.get("permissions") {
        Some(Json::Number(n)) => match n {
            JsonNumber::PosInt(u) => {
                let b = (*u % 256) as u8;
                match Permissions::from_bits(b) {
                    Some(p) => p.bits,
                    None => return None,
                }
            },
            _ => return None,
        },
        Some(Json::String(t)) => match parse_flags_text(t.as_str()) {
            Some(p) => p.bits,
            None => return None,
        },
        _ => return None,
    };
    let principals = match e.get("principals") {
        Some(Json::Array(items)) => collect_strings(items),
        _ => return None,
    };
    let scope = match e.get("scope") {
        Some(v) => match v.as_str() {
            Some(t) => Some(owned(t)),
            None => None,
        },
        None => None,
    };
    Some(AccessControlList { permissions: Permissions { bits }, principals, scope })
}

/// Reads the ACL of a stored document. Errors when `acl`, `acl.list` or any
/// entry is missing or malformed; the modification time defaults to 0.
pub fn parse_acl(doc: &Json) -> (r: Result<AccessControlStore, ()>)
    ensures
        acl_parsed_from(r, *doc),
{
    proof {
        reveal_strlit("acl");
        reveal_strlit("list");
        reveal_strlit("last_mod_date");
    }
    let acl_obj = match doc.get("acl") {
        Some(Json::Object(o)) => o,
        _ => return Err(()),
    };
    let items = match acl_obj.get("list") {
        Some(Json::Array(items)) => items,
        _ => return Err(()),
    };
    let ghost acl_json = Json::Object(*acl_obj);
    assert(acl_object(*doc) == Some(acl_json));
    assert(parsed_acl_entries(*doc) == parsed_entries(items@));
    let n = items.len();
    let mut entries: Vec<AccessControlList> = Vec::new();
    let mut i: usize = 0;
    while i < n
        invariant
            n == items@.len(),
            i <= n,
            parsed_acl_entries(*doc) == parsed_entries(items@),
            parsed_entries(items@.subrange(0, i as int)) == Some(entries@.map_values(|e: AccessControlList| entry_view(e))),
        decreases n - i,
    {
        proof {
            assert(items@.subrange(0, i + 1).drop_last() =~= items@.subrange(0, i as int));
        }
        match parse_entry(&items[i]) {
            Some(e) => {
                entries.push(e);
                proof {
                    assert(entries@.map_values(|e: AccessControlList| entry_view(e))
                        =~= entries@.drop_last().map_values(|e: AccessControlList| entry_view(e)).push(entry_view(e)));
                }
            },
            None => {
                proof {
                    lemma_parsed_entries_prefix(items@, i as int);
                }
                return Err(());
            },
        }
        i = i + 1;
    }
    proof {
        assert(items@.subrange(0, n as int) =~= items@);
    }
    let last_mod_date = match acl_obj.get("last_mod_date") {
        Some(Json::String(t)) => match rfc3339_parse(t.as_str()) {
            Some((secs, nanos)) => Timestamp { secs, nanos },
            None => Timestamp { secs: 0, nanos: 0 },
        },
        _ => Timestamp { secs: 0, nanos: 0 },
    };
    Ok(AccessControlStore { list: entries, last_mod_date })
}

/// A malformed entry makes the whole list malformed.
proof fn lemma_parsed_entries_prefix(items: Seq<Json>, i: int)
    requires
        0 <= i < items.len(),
        parsed_entry(items[i]) is None,
    ensures
        parsed_entries(items) is None,
    decreases items.len(),
{
    if i < items.len() - 1 {
        assert(items.drop_last()[i] == items[i]);
        lemma_parsed_entries_prefix(items.drop_last(), i);
    }
}

} // verus!
