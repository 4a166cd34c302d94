use vstd::prelude::*;
use vstd::string::StrSliceExecFns;

verus! {

/// A name is valid when it has between 1 and 100 characters.
pub open spec fn valid_name(s: Seq<char>) -> bool {
    1 <= s.len() <= 100
}

/// A secret is valid when it is non-empty.
pub open spec fn valid_secret(s: Seq<char>) -> bool {
    s.len() >= 1
}

/// Strict lexicographic order on character sequences, by code point.
pub open spec fn lex_lt(a: Seq<char>, b: Seq<char>) -> bool
    decreases a.len(),
{
    if b.len() == 0 {
        false
    } else if a.len() == 0 {
        true
    } else if (a[0] as u32) < (b[0] as u32) {
        true
    } else if (b[0] as u32) < (a[0] as u32) {
        false
    } else {
        lex_lt(a.drop_first(), b.drop_first())
    }
}

/// Of two distinct sequences, exactly one precedes the other.
pub proof fn lemma_lex_lt_connected(a: Seq<char>, b: Seq<char>)
    requires
        a != b,
    ensures
        lex_lt(a, b) || lex_lt(b, a),
    decreases a.len(),
{
    if a.len() == 0 && b.len() == 0 {
        assert(a =~= b);
    } else if a.len() == 0 || b.len() == 0 {
    } else if (a[0] as u32) < (b[0] as u32) || (b[0] as u32) < (a[0] as u32) {
    } else {
        assert(a[0] == b[0]) by {
            vstd::utf8::char_u32_cast(a[0], a[0] as u32);
            vstd::utf8::char_u32_cast(b[0], b[0] as u32);
        }
        if a.drop_first() == b.drop_first() {
            assert(a =~= seq![a[0]] + a.drop_first());
            assert(b =~= seq![b[0]] + b.drop_first());
            assert(false);
        }
        lemma_lex_lt_connected(a.drop_first(), b.drop_first());
    }
}

pub proof fn lemma_lex_lt_trans(a: Seq<char>, b: Seq<char>, c: Seq<char>)
    requires
        lex_lt(a, b),
        lex_lt(b, c),
    ensures
        lex_lt(a, c),
    decreases a.len(),
{
    if a.len() == 0 || b.len() == 0 || c.len() == 0 {
    } else if (a[0] as u32) < (b[0] as u32) {
    } else if (b[0] as u32) < (c[0] as u32) {
    } else {
        lemma_lex_lt_trans(a.drop_first(), b.drop_first(), c.drop_first());
    }
}

/// The name of a credential entry: unique within a catalogue, 1 to 100
/// characters.
pub struct EntryName(pub(crate) String);

impl View for EntryName {
    type V = Seq<char>;

    closed spec fn view(&self) -> Seq<char> {
        self.0@
    }
}

impl EntryName {
    pub fn new(name: String) -> (r: Result<EntryName, String>)
        ensures
            match r {
                Ok(e) => e@ == name@ && valid_name(name@),
                Err(_) => !valid_name(name@),
            },
    {
        let n = name.as_str().unicode_len();
        if n == 0 {
            Err("entry name cannot be empty".to_owned())
        } else if n > 100 {
            Err("entry name too long (max 100 chars)".to_owned())
        } else {
            Ok(EntryName(name))
        }
    }

    pub fn as_str(&self) -> (r: &str)
        ensures
            r@ == self@,
    {
        self.0.as_str()
    }
}

impl Clone for EntryName {
    fn clone(&self) -> (r: Self)
        ensures
            r@ == self@,
    {
        EntryName(self.0.clone())
    }
}

/// Whether two entry names are the same name.
pub fn name_eq(a: &EntryName, b: &EntryName) -> (r: bool)
    ensures
        r == (a@ == b@),
{
    a.0 == b.0
}

/// Compares two entry names in lexicographic code-point order.
pub fn name_lt(a: &EntryName, b: &EntryName) -> (r: bool)
    ensures
        r == lex_lt(a@, b@),
{
    str_lex_lt(a.0.as_str(), b.0.as_str())
}

/// Compares two string slices in lexicographic code-point order.
pub fn str_lex_lt(a: &str, b: &str) -> (r: bool)
    ensures
        r == lex_lt(a@, b@),
{
    let alen = a.unicode_len();
    let blen = b.unicode_len();
    let mut i: usize = 0;
    proof {
        assert(a@.skip(0) =~= a@);
        assert(b@.skip(0) =~= b@);
    }
    loop
        invariant
            i <= alen,
            i <= blen,
            alen == a@.len(),
            blen == b@.len(),
            lex_lt(a@, b@) == lex_lt(a@.skip(i as int), b@.skip(i as int)),
        decreases alen - i,
    {
        proof {
            lemma_lex_skip_step(a@, b@, i as int);
        }
        if i >= blen {
            return false;
        }
        if i >= alen {
            return true;
        }
        let ca = a.get_char(i);
        let cb = b.get_char(i);
        if (ca as u32) < (cb as u32) {
            return true;
        }
        if (cb as u32) < (ca as u32) {
            return false;
        }
        proof {
            vstd::utf8::char_u32_cast(ca, ca as u32);
            vstd::utf8::char_u32_cast(cb, cb as u32);
        }
        i = i + 1;
    }
}

/// Unfolds one step of `lex_lt` on the suffixes that start at `i`.
proof fn lemma_lex_skip_step(a: Seq<char>, b: Seq<char>, i: int)
    requires
        0 <= i <= a.len(),
        0 <= i <= b.len(),
    ensures
        i < a.len() && i < b.len() && a[i] == b[i] ==> lex_lt(a.skip(i), b.skip(i)) == lex_lt(
            a.skip(i + 1),
            b.skip(i + 1),
        ),
        i < a.len() && i < b.len() && (a[i] as u32) < (b[i] as u32) ==> lex_lt(
            a.skip(i),
            b.skip(i),
        ),
        i < a.len() && i < b.len() && (b[i] as u32) < (a[i] as u32) ==> !lex_lt(
            a.skip(i),
            b.skip(i),
        ),
        i == b.len() ==> !lex_lt(a.skip(i), b.skip(i)),
        i == a.len() && i < b.len() ==> lex_lt(a.skip(i), b.skip(i)),
{
    if i < a.len() && i < b.len() {
        assert(a.skip(i).drop_first() =~= a.skip(i + 1));
        assert(b.skip(i).drop_first() =~= b.skip(i + 1));
        if a[i] == b[i] {
            assert(a.skip(i)[0] == a[i]);
            assert(b.skip(i)[0] == b[i]);
        }
    }
}

/// A secret value: non-empty text, never shown except through `as_str`.
pub struct Password(pub(crate) String);

impl View for Password {
    type V = Seq<char>;

    closed spec fn view(&self) -> Seq<char> {
        self.0@
    }
}

impl Password {
    pub fn new(password: String) -> (r: Result<Password, String>)
        ensures
            match r {
                Ok(p) => p@ == password@ && valid_secret(password@),
                Err(_) => !valid_secret(password@),
            },
    {
        if password.as_str().is_empty() {
            Err("password cannot be empty".to_owned())
        } else {
            Ok(Password(password))
        }
    }

    pub fn as_str(&self) -> (r: &str)
        ensures
            r@ == self@,
    {
        self.0.as_str()
    }
}

impl Clone for Password {
    fn clone(&self) -> (r: Self)
        ensures
            r@ == self@,
    {
        Password(self.0.clone())
    }
}

/// Optional descriptive data carried beside a secret.
pub struct EntryMetadata {
    pub url: Option<String>,
    pub username: Option<String>,
    pub notes: Option<String>,
    pub tags: Vec<String>,
}

/// The abstract value of an `EntryMetadata`.
pub ghost struct MetadataView {
    pub url: Option<Seq<char>>,
    pub username: Option<Seq<char>>,
    pub notes: Option<Seq<char>>,
    pub tags: Seq<Seq<char>>,
}

pub open spec fn opt_string_view(o: Option<String>) -> Option<Seq<char>> {
    match o {
        Some(s) => Some(s@),
        None => None,
    }
}

impl View for EntryMetadata {
    type V = MetadataView;

    open spec fn view(&self) -> MetadataView {
        MetadataView {
            url: opt_string_view(self.url),
            username: opt_string_view(self.username),
            notes: opt_string_view(self.notes),
            tags: self.tags.deep_view(),
        }
    }
}

pub open spec fn empty_metadata() -> MetadataView {
    MetadataView { url: None, username: None, notes: None, tags: Seq::empty() }
}

impl Default for EntryMetadata {
    fn default() -> (r: Self)
        ensures
            r@ == empty_metadata(),
    {
        let r = EntryMetadata { url: None, username: None, notes: None, tags: Vec::new() };
        proof {
            assert(r@.tags =~= Seq::<Seq<char>>::empty());
        }
        r
    }
}

impl Clone for EntryMetadata {
    fn clone(&self) -> (r: Self)
        ensures
            r@ == self@,
    {
        let r = EntryMetadata {
            url: clone_opt_string(&self.url),
            username: clone_opt_string(&self.username),
            notes: clone_opt_string(&self.notes),
            tags: clone_strings(&self.tags),
        };
        proof {
            assert(r@.tags =~= self@.tags);
        }
        r
    }
}

fn clone_opt_string(o: &Option<String>) -> (r: Option<String>)
    ensures
        opt_string_view(r) == opt_string_view(*o),
{
    match o {
        Some(s) => Some(s.clone()),
        None => None,
    }
}

fn clone_strings(v: &Vec<String>) -> (r: Vec<String>)
    ensures
        r.deep_view() == v.deep_view(),
{
    let mut r: Vec<String> = Vec::new();
    let mut i: usize = 0;
    while i < v.len()
        invariant
            i <= v.len(),
            r@.len() == i,
            forall|j: int| 0 <= j < i ==> r@[j]@ == v@[j]@,
        decreases v.len() - i,
    {
        r.push(v[i].clone());
        i = i + 1;
    }
    proof {
        assert(r.deep_view() =~= v.deep_view());
    }
    r
}

/// One credential entry: a unique name, a secret, creation and modification
/// times (seconds since the Unix epoch), and optional metadata.
pub struct PasswordEntry {
    pub name: EntryName,
    pub password: Password,
    pub created_at: u64,
    pub modified_at: u64,
    pub metadata: EntryMetadata,
}

/// The abstract value of a `PasswordEntry`.
pub ghost struct EntryView {
    pub name: Seq<char>,
    pub secret: Seq<char>,
    pub created_at: u64,
    pub modified_at: u64,
    pub metadata: MetadataView,
}

impl View for PasswordEntry {
    type V = EntryView;

    open spec fn view(&self) -> EntryView {
        EntryView {
            name: self.name@,
            secret: self.password@,
            created_at: self.created_at,
            modified_at: self.modified_at,
            metadata: self.metadata@,
        }
    }
}

impl DeepView for PasswordEntry {
    type V = EntryView;

    open spec fn deep_view(&self) -> EntryView {
        self.view()
    }
}

impl DeepView for EntryName {
    type V = Seq<char>;

    open spec fn deep_view(&self) -> Seq<char> {
        self.view()
    }
}

/// An entry is well formed when its name and secret are valid.
pub open spec fn entry_wf(e: EntryView) -> bool {
    valid_name(e.name) && valid_secret(e.secret)
}

impl PasswordEntry {
    /// Builds a fresh entry: both timestamps are set to the same current
    /// time and the metadata starts empty.
    pub fn new(name: EntryName, password: Password) -> (r: Self)
        ensures
            r@.name == name@,
            r@.secret == password@,
            r@.created_at == r@.modified_at,
            r@.metadata == empty_metadata(),
    {
        let now = crate::primitives::now_secs();
        PasswordEntry {
            name,
            password,
            created_at: now,
            modified_at: now,
            metadata: EntryMetadata::default(),
        }
    }

    /// Replaces the secret and refreshes the modification time; everything
    /// else is kept.
    pub fn update_password(&mut self, password: Password)
        ensures
            final (self)@.name == old(self)@.name,
            final (self)@.secret == password@,
            final (self)@.created_at == old(self)@.created_at,
            final (self)@.metadata == old(self)@.metadata,
    {
        self.password = password;
        self.modified_at = crate::primitives::now_secs();
    }
}

impl Clone for PasswordEntry {
    fn clone(&self) -> (r: Self)
        ensures
            r@ == self@,
    {
        PasswordEntry {
            name: self.name.clone(),
            password: self.password.clone(),
            created_at: self.created_at,
            modified_at: self.modified_at,
            metadata: self.metadata.clone(),
        }
    }
}

} // verus!
