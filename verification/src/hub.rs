//! The hub connection's library side: the view of one catalog tag, the
//! in-memory mirror of the persisted hub record (which remembers whether
//! it must be written back), the installation id, the key store used where
//! no OS keyring exists, and the messages the hub's failures are shown as.

use vstd::prelude::*;
use vstd::string::*;

use crate::error::{FieldError, ServiceError};
use crate::text::push_char;

verus! {

/// The application id that prefixes the hub's key names.
pub open spec fn app_id() -> Seq<char> {
    "relay-wright"@
}

/// The application id that prefixes the hub's key names.
pub fn app_id_text() -> (r: &'static str)
    ensures
        r@ == app_id(),
{
    "relay-wright"
}

/// One catalog tag as the selection screen shows it.
pub struct HubTagView {
    pub external_name: String,
    pub name: String,
    pub data_type: String,
    pub unit: Option<String>,
    pub tag_kind: String,
}

/// The persisted hub connection record, as the screen reads it.
pub struct HubRecordView {
    pub endpoint: String,
    pub key_name: Option<String>,
    pub selected_tags: Vec<String>,
}

/// Everything the hub screen needs in one round trip. `tags` is `Some`
/// only when the catalog was actually read, so "no tags" and "catalog not
/// read" stay distinguishable.
pub struct HubView<S> {
    pub status: S,
    pub endpoint: Option<String>,
    pub key_name: Option<String>,
    pub selected_tags: Vec<String>,
    pub tags: Option<Vec<HubTagView>>,
}

/// Builds the screen's view from the connection status, the record (if
/// any) and the catalog tags (if read): endpoint, key name and selection
/// come from the record, an absent record showing none of them.
pub fn hub_view<S>(status: S, record: Option<&HubRecordView>, tags: Option<Vec<HubTagView>>) -> (r: HubView<S>)
    ensures
        r.status == status,
        r.tags == tags,
        match record {
            Some(rec) => {
                &&& r.endpoint matches Some(e) && e@ == rec.endpoint@
                &&& (r.key_name is Some <==> rec.key_name is Some)
                &&& (r.key_name matches Some(k) ==> k@ == rec.key_name->0@)
                &&& r.selected_tags@.len() == rec.selected_tags@.len()
                &&& forall|i: int| 0 <= i < rec.selected_tags@.len() ==> #[trigger] r.selected_tags@[i]@ == rec.selected_tags@[i]@
            },
            None => r.endpoint is None && r.key_name is None && r.selected_tags@.len() == 0,
        },
{
    match record {
        Some(rec) => {
            let key_name = match &rec.key_name {
                Some(k) => Some(k.clone()),
                None => None,
            };
            let mut selected: Vec<String> = Vec::new();
            let n = rec.selected_tags.len();
            let mut i: usize = 0;
            while i < n
                invariant
                    n == rec.selected_tags@.len(),
                    i <= n,
                    selected@.len() == i,
                    forall|j: int| 0 <= j < i ==> #[trigger] selected@[j]@ == rec.selected_tags@[j]@,
                decreases n - i,
            {
                selected.push(rec.selected_tags[i].clone());
                i = i + 1;
            }
            HubView { status, endpoint: Some(rec.endpoint.clone()), key_name, selected_tags: selected, tags }
        },
        None => HubView { status, endpoint: None, key_name: None, selected_tags: Vec::new(), tags },
    }
}

/// Whether `b` is a clone of `a` (both absent, or both present with the
/// second cloned from the first).
pub open spec fn option_cloned<R: Clone>(a: Option<R>, b: Option<R>) -> bool {
    match (a, b) {
        (None, None) => true,
        (Some(x), Some(y)) => cloned::<R>(x, y),
        _ => false,
    }
}

/// The in-memory copy of the persisted hub record. Every save or clear
/// marks it dirty; the dirty value is handed out once to be written back.
pub struct SettingsMirror<R> {
    record: Option<R>,
    dirty: bool,
}

/// What `take_dirty` does, from the mirror before (`m0`) to after (`m1`)
/// with result `r`: the record stays, the mirror is clean after, and the
/// record is handed out (a clone of it) exactly when it was dirty.
pub open spec fn take_dirty_post<R: Clone>(
    m0: SettingsMirror<R>,
    m1: SettingsMirror<R>,
    r: Option<Option<R>>,
) -> bool {
    &&& m1.record_spec() == m0.record_spec()
    &&& !m1.dirty_spec()
    &&& m0.dirty_spec() ==> (r matches Some(v) && option_cloned(m0.record_spec(), v))
    &&& !m0.dirty_spec() ==> r is None
}

/// What `save(record)` does: the mirror holds a clone of it, dirty.
pub open spec fn save_post<R: Clone>(m1: SettingsMirror<R>, record: R) -> bool {
    &&& m1.record_spec() matches Some(x) && cloned::<R>(record, x)
    &&& m1.dirty_spec()
}

/// What `reset(record)` does: the mirror holds `record`, clean.
pub open spec fn reset_post<R: Clone>(m1: SettingsMirror<R>, record: Option<R>) -> bool {
    &&& m1.record_spec() == record
    &&& !m1.dirty_spec()
}

impl<R: Clone> SettingsMirror<R> {
    /// The record held.
    pub closed spec fn record_spec(&self) -> Option<R> {
        self.record
    }

    /// Whether the record changed since it was last read or handed out.
    pub closed spec fn dirty_spec(&self) -> bool {
        self.dirty
    }

    /// An empty, clean mirror.
    pub fn new() -> (r: Self)
        ensures
            r.record_spec() is None,
            !r.dirty_spec(),
    {
        SettingsMirror { record: None, dirty: false }
    }

    /// Replaces the copy with the value read from settings; clean after.
    pub fn reset(&mut self, record: Option<R>)
        ensures
            reset_post(*final(self), record),
    {
        self.record = record;
        self.dirty = false;
    }

    /// The value to write back, if it changed: `Some(None)` means erase.
    /// Clean after; the record itself stays.
    pub fn take_dirty(&mut self) -> (r: Option<Option<R>>)
        ensures
            take_dirty_post(*old(self), *final(self), r),
    {
        if !self.dirty {
            return None;
        }
        self.dirty = false;
        Some(self.record.clone())
    }

    /// A copy of the record held.
    pub fn current(&self) -> (r: Option<R>)
        ensures
            option_cloned(self.record_spec(), r),
    {
        self.record.clone()
    }

    /// Reads the record (the same as [`Self::current`]).
    pub fn load(&self) -> (r: Option<R>)
        ensures
            option_cloned(self.record_spec(), r),
    {
        self.current()
    }

    /// Stores a record; dirty after.
    pub fn save(&mut self, record: &R)
        ensures
            save_post(*final(self), *record),
    {
        self.record = Some(record.clone());
        self.dirty = true;
    }

    /// Erases the record; dirty after.
    pub fn clear(&mut self)
        ensures
            final(self).record_spec() is None,
            final(self).dirty_spec(),
    {
        self.record = None;
        self.dirty = true;
    }
}

/// A change is handed out for writing back at most once: a second
/// `take_dirty` right after the first finds nothing.
pub proof fn law_change_taken_once<R: Clone>(
    m0: SettingsMirror<R>,
    m1: SettingsMirror<R>,
    m2: SettingsMirror<R>,
    r1: Option<Option<R>>,
    r2: Option<Option<R>>,
)
    requires
        take_dirty_post(m0, m1, r1),
        take_dirty_post(m1, m2, r2),
    ensures
        r2 is None,
        m2.record_spec() == m0.record_spec(),
{
}

/// A saved record is handed out for writing back by the next `take_dirty`,
/// and stays held.
pub proof fn law_saved_record_is_written_back<R: Clone>(
    record: R,
    m1: SettingsMirror<R>,
    m2: SettingsMirror<R>,
    r: Option<Option<R>>,
)
    requires
        save_post(m1, record),
        take_dirty_post(m1, m2, r),
    ensures
        r matches Some(Some(x)) && option_cloned(m1.record_spec(), Some(x)),
        m2.record_spec() == m1.record_spec(),
{
}

/// A reset (a fresh read from settings) leaves nothing to write back.
pub proof fn law_reset_leaves_nothing_to_write<R: Clone>(
    record: Option<R>,
    m1: SettingsMirror<R>,
    m2: SettingsMirror<R>,
    r: Option<Option<R>>,
)
    requires
        reset_post(m1, record),
        take_dirty_post(m1, m2, r),
    ensures
        r is None,
        m2.record_spec() == record,
{
}

/// The lower-case hexadecimal digit for `n` (`0 <= n < 16`).
pub open spec fn hex_digit(n: int) -> char {
    if n < 10 {
        (48 + n) as char
    } else {
        (87 + n) as char
    }
}

/// Byte `i` of an installation id: the random byte, with the version
/// nibble set to 4 in byte 6 and the variant bits set to `10` in byte 8.
pub open spec fn id_byte(bytes: Seq<u8>, i: int) -> int {
    if i == 6 {
        bytes[6] % 16 + 64
    } else if i == 8 {
        bytes[8] % 64 + 128
    } else {
        bytes[i] as int
    }
}

/// The 32 hexadecimal digits of an installation id.
pub open spec fn id_hex(bytes: Seq<u8>) -> Seq<char> {
    Seq::new(
        32,
        |j: int|
            if j % 2 == 0 {
                hex_digit(id_byte(bytes, j / 2) / 16)
            } else {
                hex_digit(id_byte(bytes, j / 2) % 16)
            },
    )
}

/// The canonical UUID text of an installation id made from 16 bytes.
pub open spec fn installation_id_text(bytes: Seq<u8>) -> Seq<char> {
    let h = id_hex(bytes);
    h.subrange(0, 8) + "-"@ + h.subrange(8, 12) + "-"@ + h.subrange(12, 16) + "-"@ + h.subrange(16, 20)
        + "-"@ + h.subrange(20, 32)
}

fn hex_char(n: u8) -> (c: char)
    requires
        n < 16,
    ensures
        c == hex_digit(n as int),
{
    if n < 10 {
        (48 + n) as char
    } else {
        (87 + n) as char
    }
}

/// Formats 16 bytes as a version-4, variant-1 UUID: lower-case hex in
/// groups of 8-4-4-4-12.
pub fn installation_id_from_bytes(bytes: &Vec<u8>) -> (r: String)
    requires
        bytes@.len() == 16,
    ensures
        r@ == installation_id_text(bytes@),
        r@.len() == 36,
        r@[14] == '4',
        r@[19] == '8' || r@[19] == '9' || r@[19] == 'a' || r@[19] == 'b',
{
    let mut hex = String::new();
    let mut i: usize = 0;
    while i < 16
        invariant
            i <= 16,
            bytes@.len() == 16,
            hex@ == id_hex(bytes@).subrange(0, 2 * i as int),
        decreases 16 - i,
    {
        let raw = bytes[i];
        let b: u8 = if i == 6 {
            (raw & 0x0f) | 0x40
        } else if i == 8 {
            (raw & 0x3f) | 0x80
        } else {
            raw
        };
        proof {
            if i == 6 {
                assert((raw & 0x0f) | 0x40 == raw % 16 + 64) by (bit_vector);
            }
            if i == 8 {
                assert((raw & 0x3f) | 0x80 == raw % 64 + 128) by (bit_vector);
            }
            assert(b == id_byte(bytes@, i as int));
        }
        push_char(&mut hex, hex_char(b / 16));
        push_char(&mut hex, hex_char(b % 16));
        proof {
            assert(id_hex(bytes@).subrange(0, 2 * i as int + 2) =~= id_hex(bytes@).subrange(
                0,
                2 * i as int,
            ).push(hex_digit((b / 16) as int)).push(hex_digit((b % 16) as int)));
        }
        i = i + 1;
    }
    let h = hex.as_str();
    proof {
        assert(h@ =~= id_hex(bytes@));
    }
    let mut out = String::new();
    out.append(h.substring_char(0, 8));
    out.append("-");
    out.append(h.substring_char(8, 12));
    out.append("-");
    out.append(h.substring_char(12, 16));
    out.append("-");
    out.append(h.substring_char(16, 20));
    out.append("-");
    out.append(h.substring_char(20, 32));
    proof {
        reveal_strlit("-");
        let hx = id_hex(bytes@);
        assert(out@ =~= installation_id_text(bytes@));
        assert(out@[14] == hx[12]);
        assert(out@[19] == hx[16]);
        assert(id_byte(bytes@, 6) / 16 == 4);
        let v = id_byte(bytes@, 8) / 16;
        assert(8 <= v <= 11);
    }
    out
}

/// `getrandom::fill` on a 16-byte buffer: the bytes from the operating
/// system's random source, or `None` when that source fails. Nothing is
/// promised of the bytes themselves but their number.
#[verifier::external_body]
fn random_16_bytes() -> (r: Option<Vec<u8>>)
    ensures
        r matches Some(v) ==> v@.len() == 16,
{
    let mut bytes = [0u8; 16];
    match getrandom::fill(&mut bytes) {
        Ok(()) => Some(bytes.to_vec()),
        Err(_) => None,
    }
}

/// A fresh installation id: a version-4 UUID from 16 random bytes, or
/// `None` when the operating system's random source fails.
pub fn generate_installation_id() -> (r: Option<String>)
    ensures
        r matches Some(id) ==> exists|b: Seq<u8>| b.len() == 16 && id@ == installation_id_text(b),
{
    match random_16_bytes() {
        Some(bytes) => Some(installation_id_from_bytes(&bytes)),
        None => None,
    }
}

/// Why the key store refused.
#[derive(Debug)]
pub struct KeyStoreError {
    pub detail: String,
}

/// The refusal of the key store used where no OS keyring exists.
pub open spec fn keyring_unavailable_message() -> Seq<char> {
    "この実行形態では OS キーリングを利用できません（デスクトップアプリから設定してください）"@
}

/// The key store for runs without an OS keyring: reads find nothing,
/// writes are refused (so no plain-text key is ever stored elsewhere),
/// deletes succeed.
#[derive(Clone, Copy, PartialEq, Eq, Debug, Structural)]
pub struct UnavailableKeyStore;

impl UnavailableKeyStore {
    /// Nothing is ever stored.
    pub fn get(&self, account: &str) -> (r: Option<String>)
        ensures
            r is None,
    {
        None
    }

    /// Storing a secret is refused.
    pub fn set(&self, account: &str, secret: &str) -> (r: Result<(), KeyStoreError>)
        ensures
            r matches Err(e) && e.detail@ == keyring_unavailable_message(),
    {
        Err(KeyStoreError {
            detail: String::from_str(
                "この実行形態では OS キーリングを利用できません（デスクトップアプリから設定してください）",
            ),
        })
    }

    /// Deleting succeeds (there is nothing to delete).
    pub fn delete(&self, account: &str) -> (r: Result<(), KeyStoreError>)
        ensures
            r is Ok,
    {
        Ok(())
    }
}

/// The kinds of failure the hub bootstrap reports.
#[derive(Clone, Copy, PartialEq, Eq, Debug, Structural)]
pub enum HubErrorKind {
    InvalidEndpoint,
    InvalidKey,
    ForbiddenScope,
    KeyStore,
    State,
    NotConfigured,
    /// Any kind not known here.
    Other,
}

/// How a hub failure is reported, given its kind, its detail and its full
/// display text.
pub open spec fn hub_error_view(
    kind: HubErrorKind,
    detail: Seq<char>,
    display: Seq<char>,
    e: ServiceError,
) -> bool {
    match kind {
        HubErrorKind::InvalidEndpoint => e matches ServiceError::Validation { field_errors }
            && field_errors@.len() == 1 && field_errors@[0].field@ == "endpoint"@
            && field_errors@[0].message@ == "接続先は http://ホスト:ポート の形式で入力してください"@,
        HubErrorKind::InvalidKey => e matches ServiceError::Validation { field_errors }
            && field_errors@.len() == 1 && field_errors@[0].field@ == "key"@
            && field_errors@[0].message@ == "APIキーの形式が正しくありません"@,
        HubErrorKind::ForbiddenScope => e matches ServiceError::Other(m) && m@
            == "このスコープの自動発行は許可されていません: "@ + detail,
        HubErrorKind::KeyStore => e matches ServiceError::Other(m) && m@ == (if detail.len() == 0 {
            "OSキーリングを利用できません"@
        } else {
            detail
        }),
        HubErrorKind::State => e matches ServiceError::Storage(m) && m@
            == "Hub接続設定の保存に失敗しました: "@ + detail,
        HubErrorKind::NotConfigured => e matches ServiceError::Other(m) && m@
            == "Hubへの接続がまだ設定されていません"@,
        HubErrorKind::Other => e matches ServiceError::Other(m) && m@ == "Hubへの接続に失敗しました: "@
            + display,
    }
}

/// Maps a hub failure to the service error shown to the user.
pub fn hub_error(kind: HubErrorKind, detail: &str, display: &str) -> (r: ServiceError)
    ensures
        hub_error_view(kind, detail@, display@, r),
{
    match kind {
        HubErrorKind::InvalidEndpoint => ServiceError::Validation {
            field_errors: vec![
                FieldError {
                    field: String::from_str("endpoint"),
                    message: String::from_str("接続先は http://ホスト:ポート の形式で入力してください"),
                },
            ],
        },
        HubErrorKind::InvalidKey => ServiceError::Validation {
            field_errors: vec![
                FieldError {
                    field: String::from_str("key"),
                    message: String::from_str("APIキーの形式が正しくありません"),
                },
            ],
        },
        HubErrorKind::ForbiddenScope => {
            let mut m = String::from_str("このスコープの自動発行は許可されていません: ");
            m.append(detail);
            ServiceError::Other(m)
        },
        HubErrorKind::KeyStore => {
            if detail.unicode_len() == 0 {
                ServiceError::Other(String::from_str("OSキーリングを利用できません"))
            } else {
                ServiceError::Other(detail.to_owned())
            }
        },
        HubErrorKind::State => {
            let mut m = String::from_str("Hub接続設定の保存に失敗しました: ");
            m.append(detail);
            ServiceError::Storage(m)
        },
        HubErrorKind::NotConfigured => ServiceError::Other(
            String::from_str("Hubへの接続がまだ設定されていません"),
        ),
        HubErrorKind::Other => {
            let mut m = String::from_str("Hubへの接続に失敗しました: ");
            m.append(display);
            ServiceError::Other(m)
        },
    }
}

} // verus!
