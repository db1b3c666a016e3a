//! Option normalization: turning an arbitrary, case-insensitive string
//! option bag into the closed set of recognized provider configuration keys.
//!
//! Keys that match no recognized variant are dropped on purpose: option bags
//! are shared across several provider adapters, so unknown keys are not an
//! error (best-effort filter). The enumeration covers the provider's own
//! named keys (credential material, bucket, endpoint, signing); the
//! provider SDK's HTTP-transport tuning keys are outside it and are
//! dropped like any other unrecognized key.

use vstd::prelude::*;

verus! {

/// The closed enumeration of recognized provider configuration keys.
#[derive(Clone, Copy, Debug, PartialEq, Eq, Structural)]
pub enum GcpConfigKey {
    /// Path to a service account file.
    ServiceAccount,
    /// Inline service account key material.
    ServiceAccountKey,
    /// Path to an application credentials file.
    ApplicationCredentials,
    /// A bearer token used directly for authorization.
    BearerToken,
    /// The bucket addressed by the store.
    Bucket,
    /// Endpoint override for the provider API.
    BaseUrl,
    /// Whether requests are sent unsigned ("true"/"false"-like value).
    SkipSignature,
}

/// ASCII lowercase of one character; other characters are unchanged.
pub open spec fn lower_char(c: char) -> char {
    if 65 <= c as u32 && c as u32 <= 90 {
        ((c as u32) + 32) as char
    } else {
        c
    }
}

/// ASCII lowercase of a character sequence.
pub open spec fn lower_seq(s: Seq<char>) -> Seq<char> {
    s.map_values(|c: char| lower_char(c))
}

/// True when `s`, lowered, equals the (already lowercase) string `lit`.
pub fn lower_eq(s: &str, lit: &str) -> (r: bool)
    ensures
        r == (lower_seq(s@) == lit@),
{
    let n = s.unicode_len();
    let m = lit.unicode_len();
    if n != m {
        proof {
            assert(lower_seq(s@).len() == s@.len());
        }
        return false;
    }
    for i in 0..n
        invariant
            n == s@.len(),
            n == lit@.len(),
            forall|j: int| 0 <= j < i ==> lower_seq(s@)[j] == lit@[j],
    {
        let c = s.get_char(i);
        let d = lit.get_char(i);
        let cu = c as u32;
        let du = d as u32;
        let lc: u32 = if 65 <= cu && cu <= 90 {
            cu + 32
        } else {
            cu
        };
        if lc != du {
            proof {
                assert(lower_seq(s@)[i as int] == lower_char(s@[i as int]));
                assert(lower_char(s@[i as int]) as u32 == lc);
            }
            return false;
        }
        proof {
            assert(lower_seq(s@)[i as int] == lower_char(s@[i as int]));
        }
    }
    proof {
        assert(lower_seq(s@) =~= lit@);
    }
    true
}

/// Character-for-character string equality.
pub fn str_eq(a: &str, b: &str) -> (r: bool)
    ensures
        r == (a@ == b@),
{
    let n = a.unicode_len();
    let m = b.unicode_len();
    if n != m {
        return false;
    }
    for i in 0..n
        invariant
            n == a@.len(),
            n == b@.len(),
            forall|j: int| 0 <= j < i ==> a@[j] == b@[j],
    {
        if a.get_char(i) != b.get_char(i) {
            return false;
        }
    }
    proof {
        assert(a@ =~= b@);
    }
    true
}

/// The recognized configuration key, if any, that a raw option key names.
/// Matching is ASCII-case-insensitive.
pub open spec fn key_of(s: Seq<char>) -> Option<GcpConfigKey> {
    let l = lower_seq(s);
    if l == "google_service_account"@ || l == "service_account"@
        || l == "google_service_account_path"@ || l == "service_account_path"@ {
        Some(GcpConfigKey::ServiceAccount)
    } else if l == "google_service_account_key"@ || l == "service_account_key"@ {
        Some(GcpConfigKey::ServiceAccountKey)
    } else if l == "google_application_credentials"@ || l == "application_credentials"@ {
        Some(GcpConfigKey::ApplicationCredentials)
    } else if l == "google_bearer_token"@ || l == "bearer_token"@ {
        Some(GcpConfigKey::BearerToken)
    } else if l == "google_bucket"@ || l == "google_bucket_name"@ || l == "bucket"@
        || l == "bucket_name"@ {
        Some(GcpConfigKey::Bucket)
    } else if l == "google_base_url"@ || l == "base_url"@ {
        Some(GcpConfigKey::BaseUrl)
    } else if l == "google_skip_signature"@ || l == "skip_signature"@ {
        Some(GcpConfigKey::SkipSignature)
    } else {
        None
    }
}

/// Parses a raw option key into a recognized configuration key.
/// Unrecognized keys yield `None`; that is not an error.
pub fn parse_key(s: &str) -> (r: Option<GcpConfigKey>)
    ensures
        r == key_of(s@),
{
    if lower_eq(s, "google_service_account") || lower_eq(s, "service_account")
        || lower_eq(s, "google_service_account_path") || lower_eq(s, "service_account_path") {
        Some(GcpConfigKey::ServiceAccount)
    } else if lower_eq(s, "google_service_account_key") || lower_eq(s, "service_account_key") {
        Some(GcpConfigKey::ServiceAccountKey)
    } else if lower_eq(s, "google_application_credentials")
        || lower_eq(s, "application_credentials") {
        Some(GcpConfigKey::ApplicationCredentials)
    } else if lower_eq(s, "google_bearer_token") || lower_eq(s, "bearer_token") {
        Some(GcpConfigKey::BearerToken)
    } else if lower_eq(s, "google_bucket") || lower_eq(s, "google_bucket_name")
        || lower_eq(s, "bucket") || lower_eq(s, "bucket_name") {
        Some(GcpConfigKey::Bucket)
    } else if lower_eq(s, "google_base_url") || lower_eq(s, "base_url") {
        Some(GcpConfigKey::BaseUrl)
    } else if lower_eq(s, "google_skip_signature") || lower_eq(s, "skip_signature") {
        Some(GcpConfigKey::SkipSignature)
    } else {
        None
    }
}

/// The raw option bag as supplied by the caller: ordered key/value pairs
/// with case-insensitive keys. When several pairs name the same recognized
/// key, the later pair wins, so normalization is deterministic.
pub struct StorageOptions(pub Vec<(String, String)>);

impl StorageOptions {
    /// The bag as a sequence of (key, value) character sequences.
    pub open spec fn pairs(&self) -> Seq<(Seq<char>, Seq<char>)> {
        self.0@.map_values(|p: (String, String)| (p.0@, p.1@))
    }

    /// An empty option bag.
    pub fn new() -> (r: Self)
        ensures
            r.pairs() == Seq::<(Seq<char>, Seq<char>)>::empty(),
    {
        let r = StorageOptions(Vec::new());
        proof {
            assert(r.pairs() =~= Seq::<(Seq<char>, Seq<char>)>::empty());
        }
        r
    }

    /// Appends one key/value pair to the bag.
    pub fn push(&mut self, key: String, value: String)
        ensures
            final (self).pairs() == old(self).pairs().push((key@, value@)),
    {
        let ghost before = self.pairs();
        self.0.push((key, value));
        proof {
            assert(self.pairs() =~= before.push((key@, value@)));
        }
    }
}

/// The view of an optional string.
pub open spec fn view_opt(o: Option<String>) -> Option<Seq<char>> {
    match o {
        Some(s) => Some(s@),
        None => None,
    }
}

/// The normalized option bag: one slot per recognized configuration key.
/// Keys outside the closed enumeration cannot be represented, so
/// unrecognized raw keys are necessarily absent here.
#[derive(Clone, Debug)]
pub struct NormalizedOptions {
    pub service_account: Option<String>,
    pub service_account_key: Option<String>,
    pub application_credentials: Option<String>,
    pub bearer_token: Option<String>,
    pub bucket: Option<String>,
    pub base_url: Option<String>,
    pub skip_signature: Option<String>,
}

/// The mathematical view of a normalized option bag: the character
/// sequences stored for each recognized key.
#[verifier::ext_equal]
pub ghost struct OptionsView {
    pub service_account: Option<Seq<char>>,
    pub service_account_key: Option<Seq<char>>,
    pub application_credentials: Option<Seq<char>>,
    pub bearer_token: Option<Seq<char>>,
    pub bucket: Option<Seq<char>>,
    pub base_url: Option<Seq<char>>,
    pub skip_signature: Option<Seq<char>>,
}

impl View for NormalizedOptions {
    type V = OptionsView;

    open spec fn view(&self) -> OptionsView {
        OptionsView {
            service_account: view_opt(self.service_account),
            service_account_key: view_opt(self.service_account_key),
            application_credentials: view_opt(self.application_credentials),
            bearer_token: view_opt(self.bearer_token),
            bucket: view_opt(self.bucket),
            base_url: view_opt(self.base_url),
            skip_signature: view_opt(self.skip_signature),
        }
    }
}

impl NormalizedOptions {
    /// A bag with every slot unset.
    pub fn empty() -> (r: Self)
        ensures
            r.service_account is None,
            r.service_account_key is None,
            r.application_credentials is None,
            r.bearer_token is None,
            r.bucket is None,
            r.base_url is None,
            r.skip_signature is None,
    {
        NormalizedOptions {
            service_account: None,
            service_account_key: None,
            application_credentials: None,
            bearer_token: None,
            bucket: None,
            base_url: None,
            skip_signature: None,
        }
    }
}

/// The value of the last raw pair whose key names the recognized key `k`.
pub open spec fn last_value(pairs: Seq<(Seq<char>, Seq<char>)>, k: GcpConfigKey) -> Option<
    Seq<char>,
>
    decreases pairs.len(),
{
    if pairs.len() == 0 {
        None
    } else if key_of(pairs.last().0) == Some(k) {
        Some(pairs.last().1)
    } else {
        last_value(pairs.drop_last(), k)
    }
}

/// The value of the last raw pair whose key, lowered, equals `name`.
pub open spec fn last_raw(pairs: Seq<(Seq<char>, Seq<char>)>, name: Seq<char>) -> Option<Seq<char>>
    decreases pairs.len(),
{
    if pairs.len() == 0 {
        None
    } else if lower_seq(pairs.last().0) == name {
        Some(pairs.last().1)
    } else {
        last_raw(pairs.drop_last(), name)
    }
}

/// Looks up the last value for a raw key, matched case-insensitively
/// against the (lowercase) `name`.
pub fn raw_lookup<'a>(raw: &'a StorageOptions, name: &str) -> (r: Option<&'a String>)
    ensures
        match r {
            Some(v) => last_raw(raw.pairs(), name@) == Some(v@),
            None => last_raw(raw.pairs(), name@) is None,
        },
{
    let mut i: usize = raw.0.len();
    proof {
        assert(raw.pairs().take(i as int) =~= raw.pairs());
    }
    loop
        invariant
            i <= raw.0@.len(),
            last_raw(raw.pairs(), name@) == last_raw(raw.pairs().take(i as int), name@),
        decreases i,
    {
        if i == 0 {
            proof {
                assert(raw.pairs().take(0) =~= Seq::<(Seq<char>, Seq<char>)>::empty());
            }
            return None;
        }
        i = i - 1;
        proof {
            assert(raw.pairs().take(i + 1).drop_last() =~= raw.pairs().take(i as int));
            assert(raw.pairs().take(i + 1).last() == raw.pairs()[i as int]);
            assert(raw.pairs()[i as int] == (raw.0@[i as int].0@, raw.0@[i as int].1@));
        }
        if lower_eq(raw.0[i].0.as_str(), name) {
            return Some(&raw.0[i].1);
        }
    }
}

/// The normalized view that a raw option bag yields: each recognized key
/// holds the value of the last raw pair that named it.
pub open spec fn normalized_of(pairs: Seq<(Seq<char>, Seq<char>)>) -> OptionsView {
    OptionsView {
        service_account: last_value(pairs, GcpConfigKey::ServiceAccount),
        service_account_key: last_value(pairs, GcpConfigKey::ServiceAccountKey),
        application_credentials: last_value(pairs, GcpConfigKey::ApplicationCredentials),
        bearer_token: last_value(pairs, GcpConfigKey::BearerToken),
        bucket: last_value(pairs, GcpConfigKey::Bucket),
        base_url: last_value(pairs, GcpConfigKey::BaseUrl),
        skip_signature: last_value(pairs, GcpConfigKey::SkipSignature),
    }
}

/// Appending one pair either overrides the slot its key names or, when the
/// key is unrecognized, changes nothing.
pub proof fn lemma_last_value_push(
    pairs: Seq<(Seq<char>, Seq<char>)>,
    p: (Seq<char>, Seq<char>),
    k: GcpConfigKey,
)
    ensures
        last_value(pairs.push(p), k) == if key_of(p.0) == Some(k) {
            Some(p.1)
        } else {
            last_value(pairs, k)
        },
{
    assert(pairs.push(p).drop_last() =~= pairs);
    assert(pairs.push(p).last() == p);
}

impl NormalizedOptions {
    /// Renders the bag back to raw pairs, each set slot under its
    /// canonical key name. Normalizing the result restores this bag.
    #[verifier::rlimit(60)]
    pub fn to_raw(&self) -> (r: StorageOptions)
        ensures
            r.pairs() == canonical_pairs(self@),
    {
        let mut out: Vec<(String, String)> = Vec::new();
        if let Some(v) = &self.service_account {
            out.push(("google_service_account".to_owned(), v.clone()));
        }
        if let Some(v) = &self.service_account_key {
            out.push(("google_service_account_key".to_owned(), v.clone()));
        }
        if let Some(v) = &self.application_credentials {
            out.push(("google_application_credentials".to_owned(), v.clone()));
        }
        if let Some(v) = &self.bearer_token {
            out.push(("google_bearer_token".to_owned(), v.clone()));
        }
        if let Some(v) = &self.bucket {
            out.push(("google_bucket".to_owned(), v.clone()));
        }
        if let Some(v) = &self.base_url {
            out.push(("google_base_url".to_owned(), v.clone()));
        }
        if let Some(v) = &self.skip_signature {
            out.push(("google_skip_signature".to_owned(), v.clone()));
        }
        let r = StorageOptions(out);
        proof {
            assert(r.pairs() =~= canonical_pairs(self@));
        }
        r
    }
}

/// A singleton pair for a set slot, nothing for an unset one.
pub open spec fn opt_entry(name: Seq<char>, v: Option<Seq<char>>) -> Seq<(Seq<char>, Seq<char>)> {
    match v {
        Some(x) => seq![(name, x)],
        None => seq![],
    }
}

/// The canonical raw pairs a normalized bag renders back to: each set slot
/// under its canonical key name.
pub open spec fn canonical_pairs(v: OptionsView) -> Seq<(Seq<char>, Seq<char>)> {
    opt_entry("google_service_account"@, v.service_account) + opt_entry(
        "google_service_account_key"@,
        v.service_account_key,
    ) + opt_entry("google_application_credentials"@, v.application_credentials) + opt_entry(
        "google_bearer_token"@,
        v.bearer_token,
    ) + opt_entry("google_bucket"@, v.bucket) + opt_entry("google_base_url"@, v.base_url)
        + opt_entry("google_skip_signature"@, v.skip_signature)
}

/// The slot a concatenation fills is the later bag's when that one fills
/// it, else the earlier bag's.
proof fn lemma_last_value_concat(
    a: Seq<(Seq<char>, Seq<char>)>,
    b: Seq<(Seq<char>, Seq<char>)>,
    k: GcpConfigKey,
)
    ensures
        last_value(a + b, k) == match last_value(b, k) {
            Some(x) => Some(x),
            None => last_value(a, k),
        },
    decreases b.len(),
{
    if b.len() == 0 {
        assert(a + b =~= a);
    } else {
        assert((a + b).drop_last() =~= a + b.drop_last());
        assert((a + b).last() == b.last());
        lemma_last_value_concat(a, b.drop_last(), k);
    }
}

/// What a singleton entry contributes to a slot.
proof fn lemma_last_value_entry(name: Seq<char>, v: Option<Seq<char>>, k: GcpConfigKey)
    ensures
        last_value(opt_entry(name, v), k) == if key_of(name) == Some(k) {
            v
        } else {
            None::<Seq<char>>
        },
{
    assert(last_value(Seq::<(Seq<char>, Seq<char>)>::empty(), k) is None);
    match v {
        Some(x) => {
            assert(opt_entry(name, v).last() == (name, x));
            assert(opt_entry(name, v).drop_last() =~= Seq::<(Seq<char>, Seq<char>)>::empty());
        },
        None => {},
    }
}

/// The canonical key names name their own keys.
proof fn lemma_canonical_keys()
    ensures
        key_of("google_service_account"@) == Some(GcpConfigKey::ServiceAccount),
        key_of("google_service_account_key"@) == Some(GcpConfigKey::ServiceAccountKey),
        key_of("google_application_credentials"@) == Some(GcpConfigKey::ApplicationCredentials),
        key_of("google_bearer_token"@) == Some(GcpConfigKey::BearerToken),
        key_of("google_bucket"@) == Some(GcpConfigKey::Bucket),
        key_of("google_base_url"@) == Some(GcpConfigKey::BaseUrl),
        key_of("google_skip_signature"@) == Some(GcpConfigKey::SkipSignature),
{
    reveal_strlit("google_service_account");
    reveal_strlit("service_account");
    reveal_strlit("google_service_account_path");
    reveal_strlit("service_account_path");
    reveal_strlit("google_service_account_key");
    reveal_strlit("service_account_key");
    reveal_strlit("google_application_credentials");
    reveal_strlit("application_credentials");
    reveal_strlit("google_bearer_token");
    reveal_strlit("bearer_token");
    reveal_strlit("google_bucket");
    reveal_strlit("google_bucket_name");
    reveal_strlit("bucket");
    reveal_strlit("bucket_name");
    reveal_strlit("google_base_url");
    reveal_strlit("base_url");
    reveal_strlit("google_skip_signature");
    reveal_strlit("skip_signature");
    assert(("google_bearer_token"@)[0] == 'g');
    assert(("service_account_key"@)[0] == 's');
    assert(("google_base_url"@)[0] == 'g');
    assert(("service_account"@)[0] == 's');
    assert(lower_seq("google_service_account"@) =~= "google_service_account"@);
    assert(lower_seq("google_service_account_key"@) =~= "google_service_account_key"@);
    assert(lower_seq("google_application_credentials"@) =~= "google_application_credentials"@);
    assert(lower_seq("google_bearer_token"@) =~= "google_bearer_token"@);
    assert(lower_seq("google_bucket"@) =~= "google_bucket"@);
    assert(lower_seq("google_base_url"@) =~= "google_base_url"@);
    assert(lower_seq("google_skip_signature"@) =~= "google_skip_signature"@);
}

/// What a canonical rendering holds for one recognized key: exactly the
/// slot of the bag it was rendered from.
proof fn lemma_canonical_slot(v: OptionsView, k: GcpConfigKey)
    ensures
        last_value(canonical_pairs(v), k) == match k {
            GcpConfigKey::ServiceAccount => v.service_account,
            GcpConfigKey::ServiceAccountKey => v.service_account_key,
            GcpConfigKey::ApplicationCredentials => v.application_credentials,
            GcpConfigKey::BearerToken => v.bearer_token,
            GcpConfigKey::Bucket => v.bucket,
            GcpConfigKey::BaseUrl => v.base_url,
            GcpConfigKey::SkipSignature => v.skip_signature,
        },
{
    lemma_canonical_keys();
    let e1 = opt_entry("google_service_account"@, v.service_account);
    let e2 = opt_entry("google_service_account_key"@, v.service_account_key);
    let e3 = opt_entry("google_application_credentials"@, v.application_credentials);
    let e4 = opt_entry("google_bearer_token"@, v.bearer_token);
    let e5 = opt_entry("google_bucket"@, v.bucket);
    let e6 = opt_entry("google_base_url"@, v.base_url);
    let e7 = opt_entry("google_skip_signature"@, v.skip_signature);
    lemma_last_value_concat(e1 + e2 + e3 + e4 + e5 + e6, e7, k);
    lemma_last_value_concat(e1 + e2 + e3 + e4 + e5, e6, k);
    lemma_last_value_concat(e1 + e2 + e3 + e4, e5, k);
    lemma_last_value_concat(e1 + e2 + e3, e4, k);
    lemma_last_value_concat(e1 + e2, e3, k);
    lemma_last_value_concat(e1, e2, k);
    lemma_last_value_entry("google_service_account"@, v.service_account, k);
    lemma_last_value_entry("google_service_account_key"@, v.service_account_key, k);
    lemma_last_value_entry("google_application_credentials"@, v.application_credentials, k);
    lemma_last_value_entry("google_bearer_token"@, v.bearer_token, k);
    lemma_last_value_entry("google_bucket"@, v.bucket, k);
    lemma_last_value_entry("google_base_url"@, v.base_url, k);
    lemma_last_value_entry("google_skip_signature"@, v.skip_signature, k);
}

/// Law (idempotence): rendering a normalized bag back to raw pairs under
/// the canonical key names and normalizing again changes nothing, so
/// normalizing twice yields what normalizing once yields.
pub proof fn lemma_normalize_idempotent(v: OptionsView)
    ensures
        normalized_of(canonical_pairs(v)) == v,
{
    lemma_canonical_slot(v, GcpConfigKey::ServiceAccount);
    lemma_canonical_slot(v, GcpConfigKey::ServiceAccountKey);
    lemma_canonical_slot(v, GcpConfigKey::ApplicationCredentials);
    lemma_canonical_slot(v, GcpConfigKey::BearerToken);
    lemma_canonical_slot(v, GcpConfigKey::Bucket);
    lemma_canonical_slot(v, GcpConfigKey::BaseUrl);
    lemma_canonical_slot(v, GcpConfigKey::SkipSignature);
    assert(normalized_of(canonical_pairs(v)) =~= v);
}

/// Converts the raw option bag into the recognized configuration keys.
///
/// Every recognized key ends up holding the value of the last raw pair that
/// named it (case-insensitively); pairs with unrecognized keys are dropped.
pub fn normalize(raw: &StorageOptions) -> (r: NormalizedOptions)
    ensures
        r@ == normalized_of(raw.pairs()),
{
    let mut r = NormalizedOptions::empty();
    let n = raw.0.len();
    proof {
        assert(raw.pairs().take(0) =~= Seq::<(Seq<char>, Seq<char>)>::empty());
    }
    for i in 0..n
        invariant
            n == raw.0.len(),
            view_opt(r.service_account) == last_value(
                raw.pairs().take(i as int),
                GcpConfigKey::ServiceAccount,
            ),
            view_opt(r.service_account_key) == last_value(
                raw.pairs().take(i as int),
                GcpConfigKey::ServiceAccountKey,
            ),
            view_opt(r.application_credentials) == last_value(
                raw.pairs().take(i as int),
                GcpConfigKey::ApplicationCredentials,
            ),
            view_opt(r.bearer_token) == last_value(
                raw.pairs().take(i as int),
                GcpConfigKey::BearerToken,
            ),
            view_opt(r.bucket) == last_value(raw.pairs().take(i as int), GcpConfigKey::Bucket),
            view_opt(r.base_url) == last_value(raw.pairs().take(i as int), GcpConfigKey::BaseUrl),
            view_opt(r.skip_signature) == last_value(
                raw.pairs().take(i as int),
                GcpConfigKey::SkipSignature,
            ),
    {
        let key = parse_key(raw.0[i].0.as_str());
        proof {
            assert(raw.pairs()[i as int] == (raw.0@[i as int].0@, raw.0@[i as int].1@));
        }
        match key {
            Some(GcpConfigKey::ServiceAccount) => {
                r.service_account = Some(raw.0[i].1.clone());
            },
            Some(GcpConfigKey::ServiceAccountKey) => {
                r.service_account_key = Some(raw.0[i].1.clone());
            },
            Some(GcpConfigKey::ApplicationCredentials) => {
                r.application_credentials = Some(raw.0[i].1.clone());
            },
            Some(GcpConfigKey::BearerToken) => {
                r.bearer_token = Some(raw.0[i].1.clone());
            },
            Some(GcpConfigKey::Bucket) => {
                r.bucket = Some(raw.0[i].1.clone());
            },
            Some(GcpConfigKey::BaseUrl) => {
                r.base_url = Some(raw.0[i].1.clone());
            },
            Some(GcpConfigKey::SkipSignature) => {
                r.skip_signature = Some(raw.0[i].1.clone());
            },
            None => {},
        }
        proof {
            assert(raw.pairs().take(i + 1) =~= raw.pairs().take(i as int).push(
                raw.pairs()[i as int],
            ));
            lemma_last_value_push(
                raw.pairs().take(i as int),
                raw.pairs()[i as int],
                GcpConfigKey::ServiceAccount,
            );
            lemma_last_value_push(
                raw.pairs().take(i as int),
                raw.pairs()[i as int],
                GcpConfigKey::ServiceAccountKey,
            );
            lemma_last_value_push(
                raw.pairs().take(i as int),
                raw.pairs()[i as int],
                GcpConfigKey::ApplicationCredentials,
            );
            lemma_last_value_push(
                raw.pairs().take(i as int),
                raw.pairs()[i as int],
                GcpConfigKey::BearerToken,
            );
            lemma_last_value_push(
                raw.pairs().take(i as int),
                raw.pairs()[i as int],
                GcpConfigKey::Bucket,
            );
            lemma_last_value_push(
                raw.pairs().take(i as int),
                raw.pairs()[i as int],
                GcpConfigKey::BaseUrl,
            );
            lemma_last_value_push(
                raw.pairs().take(i as int),
                raw.pairs()[i as int],
                GcpConfigKey::SkipSignature,
            );
        }
    }
    proof {
        assert(raw.pairs().take(n as int) =~= raw.pairs());
        assert(r@ =~= normalized_of(raw.pairs()));
    }
    r
}

} // verus!
