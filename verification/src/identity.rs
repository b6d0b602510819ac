//! Validated, versioned identities for game definitions, sessions and results.
use vstd::prelude::*;

use crate::text::{
    chars_of, is_alphanumeric, is_control, is_digit, is_lower, is_whitespace, lower, whitespace,
    MAX_REFERENCE_LENGTH,
};
use crate::session::MAX_SAFE_VERSION;

verus! {

/// Validation failures for stable game-domain identities.
#[derive(Clone, Copy, Debug, Eq, PartialEq, Structural)]
pub enum IdentityError {
    InvalidDefinitionKey,
    InvalidDefinitionVersion,
    InvalidSessionId,
    InvalidResultId,
    InvalidResultVersion,
}

impl IdentityError {
    /// The stable machine-readable code of this error.
    pub open spec fn code_text(self) -> Seq<char> {
        match self {
            IdentityError::InvalidDefinitionKey => "GAME_INVALID_DEFINITION_KEY"@,
            IdentityError::InvalidDefinitionVersion => "GAME_INVALID_DEFINITION_VERSION"@,
            IdentityError::InvalidSessionId => "GAME_INVALID_SESSION_ID"@,
            IdentityError::InvalidResultId => "GAME_INVALID_RESULT_ID"@,
            IdentityError::InvalidResultVersion => "GAME_INVALID_RESULT_VERSION"@,
        }
    }

    pub fn code(self) -> (r: &'static str)
        ensures
            r@ == self.code_text(),
    {
        match self {
            IdentityError::InvalidDefinitionKey => "GAME_INVALID_DEFINITION_KEY",
            IdentityError::InvalidDefinitionVersion => "GAME_INVALID_DEFINITION_VERSION",
            IdentityError::InvalidSessionId => "GAME_INVALID_SESSION_ID",
            IdentityError::InvalidResultId => "GAME_INVALID_RESULT_ID",
            IdentityError::InvalidResultVersion => "GAME_INVALID_RESULT_VERSION",
        }
    }
}

pub type IdentityResult<T> = Result<T, IdentityError>;

/// A character allowed in a definition key: lowercase letter, digit, `_` or the separator `.`.
pub open spec fn is_key_char(c: char) -> bool {
    is_lower(c) || is_digit(c) || c == '_' || c == '.'
}

/// Position `i` of `s` is where a dot-separated segment begins.
pub open spec fn starts_segment(s: Seq<char>, i: int) -> bool {
    i == 0 || s[i - 1] == '.'
}

/// A canonical definition key: 1 to 160 characters, dot-separated segments, each segment
/// non-empty, starting with a lowercase letter and made of lowercase letters, digits and `_`.
pub open spec fn is_definition_key(s: Seq<char>) -> bool {
    &&& 0 < s.len() <= MAX_REFERENCE_LENGTH
    &&& forall|i: int| 0 <= i < s.len() ==> is_key_char(#[trigger] s[i])
    &&& forall|i: int|
        0 <= i <= s.len() && #[trigger] starts_segment(s, i) ==> i < s.len() && is_lower(s[i])
}

/// A character allowed in a version label: ASCII letter or digit, `.`, `_` or `-`.
pub open spec fn is_version_char(c: char) -> bool {
    is_alphanumeric(c) || c == '.' || c == '_' || c == '-'
}

/// A canonical version label: 1 to 160 characters, each a version character.
pub open spec fn is_version_label(s: Seq<char>) -> bool {
    &&& 0 < s.len() <= MAX_REFERENCE_LENGTH
    &&& forall|i: int| 0 <= i < s.len() ==> is_version_char(#[trigger] s[i])
}

/// An opaque reference identity: 1 to 160 characters, no leading or trailing whitespace,
/// and no control character.
pub open spec fn is_reference_id(s: Seq<char>) -> bool {
    &&& 0 < s.len() <= MAX_REFERENCE_LENGTH
    &&& !is_whitespace(s[0])
    &&& !is_whitespace(s[s.len() - 1])
    &&& forall|i: int| 0 <= i < s.len() ==> !is_control(#[trigger] s[i])
}

fn key_char(c: char) -> (r: bool)
    ensures
        r == is_key_char(c),
{
    lower(c) || ('0' <= c && c <= '9') || c == '_' || c == '.'
}

fn version_char(c: char) -> (r: bool)
    ensures
        r == is_version_char(c),
{
    ('a' <= c && c <= 'z') || ('A' <= c && c <= 'Z') || ('0' <= c && c <= '9') || c == '.' || c
        == '_' || c == '-'
}

fn control(c: char) -> (r: bool)
    ensures
        r == is_control(c),
{
    let u = c as u32;
    u <= 0x1f || (0x7f <= u && u <= 0x9f)
}

fn definition_key_ok(value: &str) -> (r: bool)
    ensures
        r == is_definition_key(value@),
{
    let chars = chars_of(value);
    let n = chars.len();
    if n == 0 || n > MAX_REFERENCE_LENGTH {
        return false;
    }
    let mut i: usize = 0;
    while i < n
        invariant
            n == chars@.len(),
            chars@ == value@,
            0 < n <= MAX_REFERENCE_LENGTH,
            i <= n,
            forall|j: int| 0 <= j < i ==> is_key_char(#[trigger] chars@[j]),
            forall|j: int|
                0 <= j < i && #[trigger] starts_segment(chars@, j) ==> is_lower(chars@[j]),
        decreases n - i,
    {
        let c = chars[i];
        if !key_char(c) {
            assert(!is_key_char(value@[i as int]));
            return false;
        }
        if (i == 0 || chars[i - 1] == '.') && !lower(c) {
            assert(starts_segment(value@, i as int));
            return false;
        }
        i += 1;
    }
    if chars[n - 1] == '.' {
        assert(starts_segment(value@, n as int));
        return false;
    }
    assert forall|j: int| 0 <= j <= value@.len() && #[trigger] starts_segment(value@, j) implies j
        < value@.len() && is_lower(value@[j]) by {
        if j == n {
            assert(value@[j - 1] == '.');
        }
    }
    true
}

fn version_label_ok(value: &str) -> (r: bool)
    ensures
        r == is_version_label(value@),
{
    let chars = chars_of(value);
    let n = chars.len();
    if n == 0 || n > MAX_REFERENCE_LENGTH {
        return false;
    }
    let mut i: usize = 0;
    while i < n
        invariant
            n == chars@.len(),
            chars@ == value@,
            i <= n,
            forall|j: int| 0 <= j < i ==> is_version_char(#[trigger] chars@[j]),
        decreases n - i,
    {
        if !version_char(chars[i]) {
            assert(!is_version_char(value@[i as int]));
            return false;
        }
        i += 1;
    }
    true
}

/// Checks the opaque reference-identity rule shared by session, result and participant ids.
pub fn reference_id_ok(value: &str) -> (r: bool)
    ensures
        r == is_reference_id(value@),
{
    let chars = chars_of(value);
    let n = chars.len();
    if n == 0 || n > MAX_REFERENCE_LENGTH {
        return false;
    }
    if whitespace(chars[0]) || whitespace(chars[n - 1]) {
        return false;
    }
    let mut i: usize = 0;
    while i < n
        invariant
            n == chars@.len(),
            chars@ == value@,
            i <= n,
            forall|j: int| 0 <= j < i ==> !is_control(#[trigger] chars@[j]),
        decreases n - i,
    {
        if control(chars[i]) {
            assert(is_control(value@[i as int]));
            return false;
        }
        i += 1;
    }
    true
}

/// The characters of a definition key are exactly the ASCII lowercase letters U+0061..=U+007A,
/// the digits U+0030..=U+0039, `_` (U+005F) and `.` (U+002E).
pub proof fn lemma_key_characters(c: char)
    ensures
        is_key_char(c) <==> (0x61 <= (c as u32) <= 0x7a || 0x30 <= (c as u32) <= 0x39 || (c as u32)
            == 0x5f || (c as u32) == 0x2e),
        is_lower(c) <==> 0x61 <= (c as u32) <= 0x7a,
{
    crate::text::lemma_ascii_classes(c);
}

/// Every dot-free text of 1 to 160 ASCII lowercase letters, `'a'` to `'z'` both included, is a
/// definition key; and every definition key starts with such a letter.
pub proof fn lemma_lowercase_words_are_keys(s: Seq<char>)
    ensures
        (0 < s.len() <= MAX_REFERENCE_LENGTH && forall|i: int|
            0 <= i < s.len() ==> 0x61 <= (#[trigger] s[i] as u32) <= 0x7a) ==> is_definition_key(
            s,
        ),
        is_definition_key(s) ==> 0x61 <= (s[0] as u32) <= 0x7a,
{
    if 0 < s.len() <= MAX_REFERENCE_LENGTH && forall|i: int|
        0 <= i < s.len() ==> 0x61 <= (#[trigger] s[i] as u32) <= 0x7a {
        assert forall|i: int| 0 <= i < s.len() implies is_key_char(#[trigger] s[i]) && is_lower(
            s[i],
        ) by {
            lemma_key_characters(s[i]);
        }
        assert forall|i: int| 0 <= i <= s.len() && #[trigger] starts_segment(s, i) implies i
            < s.len() && is_lower(s[i]) by {
            if i > 0 {
                lemma_key_characters(s[i - 1]);
                assert(is_lower(s[i - 1]));
            }
        }
    }
    if is_definition_key(s) {
        assert(starts_segment(s, 0));
        lemma_key_characters(s[0]);
    }
}

/// The characters of a version label are exactly the ASCII letters U+0041..=U+005A and
/// U+0061..=U+007A, the digits U+0030..=U+0039, `.` (U+002E), `_` (U+005F) and `-` (U+002D).
pub proof fn lemma_version_characters(c: char)
    ensures
        is_version_char(c) <==> (0x41 <= (c as u32) <= 0x5a || 0x61 <= (c as u32) <= 0x7a || 0x30
            <= (c as u32) <= 0x39 || (c as u32) == 0x2e || (c as u32) == 0x5f || (c as u32)
            == 0x2d),
{
    crate::text::lemma_ascii_classes(c);
}

/// Every text of 1 to 160 ASCII letters (upper or lower case) and digits is a version label.
pub proof fn lemma_alphanumeric_labels(s: Seq<char>)
    requires
        0 < s.len() <= MAX_REFERENCE_LENGTH,
        forall|i: int|
            0 <= i < s.len() ==> {
                let u = #[trigger] s[i] as u32;
                0x41 <= u <= 0x5a || 0x61 <= u <= 0x7a || 0x30 <= u <= 0x39
            },
    ensures
        is_version_label(s),
{
    assert forall|i: int| 0 <= i < s.len() implies is_version_char(#[trigger] s[i]) by {
        lemma_version_characters(s[i]);
    }
}

/// Every text of 1 to 160 characters that are ASCII letters or digits or Latin-1 letters
/// U+00C0..=U+00FF (such as `é`) is a valid reference identity: none of them is whitespace or
/// a control character.
pub proof fn lemma_letter_ids_are_references(s: Seq<char>)
    requires
        0 < s.len() <= MAX_REFERENCE_LENGTH,
        forall|i: int|
            0 <= i < s.len() ==> {
                let u = #[trigger] s[i] as u32;
                0x41 <= u <= 0x5a || 0x61 <= u <= 0x7a || 0x30 <= u <= 0x39 || 0xc0 <= u <= 0xff
            },
    ensures
        is_reference_id(s),
{
    assert forall|i: int| 0 <= i < s.len() implies !is_control(#[trigger] s[i]) && !is_whitespace(
        s[i],
    ) by {
        crate::text::lemma_control_characters(s[i]);
    }
    assert(!is_whitespace(s[0]));
    assert(!is_whitespace(s[s.len() - 1]));
}

/// Stable, dot-separated identity for a family of rules.
#[derive(Debug, Eq, Hash, Ord, PartialEq, PartialOrd)]
pub struct GameDefinitionKey(String);

impl View for GameDefinitionKey {
    type V = Seq<char>;

    closed spec fn view(&self) -> Seq<char> {
        self.0@
    }
}

impl GameDefinitionKey {
    #[verifier::type_invariant]
    closed spec fn well_formed(self) -> bool {
        is_definition_key(self.0@)
    }

    /// Creates a canonical definition key such as `board.chess.standard`.
    pub fn new(value: &str) -> (r: IdentityResult<Self>)
        ensures
            r is Ok <==> is_definition_key(value@),
            r matches Ok(k) ==> k@ == value@,
            r matches Err(e) ==> e == IdentityError::InvalidDefinitionKey,
    {
        if !definition_key_ok(value) {
            return Err(IdentityError::InvalidDefinitionKey);
        }
        Ok(GameDefinitionKey(value.to_owned()))
    }

    pub fn as_str(&self) -> (r: &str)
        ensures
            r@ == self@,
            is_definition_key(self@),
    {
        proof {
            use_type_invariant(self);
        }
        self.0.as_str()
    }
}

impl Clone for GameDefinitionKey {
    fn clone(&self) -> (r: Self)
        ensures
            r == *self,
    {
        proof {
            use_type_invariant(self);
        }
        GameDefinitionKey(self.0.clone())
    }
}

/// Immutable version label for a game definition.
#[derive(Debug, Eq, Hash, Ord, PartialEq, PartialOrd)]
pub struct GameDefinitionVersion(String);

impl View for GameDefinitionVersion {
    type V = Seq<char>;

    closed spec fn view(&self) -> Seq<char> {
        self.0@
    }
}

impl GameDefinitionVersion {
    #[verifier::type_invariant]
    closed spec fn well_formed(self) -> bool {
        is_version_label(self.0@)
    }

    /// Creates a canonical version label.
    pub fn new(value: &str) -> (r: IdentityResult<Self>)
        ensures
            r is Ok <==> is_version_label(value@),
            r matches Ok(v) ==> v@ == value@,
            r matches Err(e) ==> e == IdentityError::InvalidDefinitionVersion,
    {
        if !version_label_ok(value) {
            return Err(IdentityError::InvalidDefinitionVersion);
        }
        Ok(GameDefinitionVersion(value.to_owned()))
    }

    pub fn as_str(&self) -> (r: &str)
        ensures
            r@ == self@,
            is_version_label(self@),
    {
        proof {
            use_type_invariant(self);
        }
        self.0.as_str()
    }
}

impl Clone for GameDefinitionVersion {
    fn clone(&self) -> (r: Self)
        ensures
            r == *self,
    {
        proof {
            use_type_invariant(self);
        }
        GameDefinitionVersion(self.0.clone())
    }
}

/// The abstract value of a [`GameDefinitionRef`].
pub struct DefinitionRefView {
    pub key: Seq<char>,
    pub version: Seq<char>,
}

/// Reference to one immutable interpretation of a game's rules.
#[derive(Debug, Eq, Hash, Ord, PartialEq, PartialOrd)]
pub struct GameDefinitionRef {
    key: GameDefinitionKey,
    version: GameDefinitionVersion,
}

impl View for GameDefinitionRef {
    type V = DefinitionRefView;

    closed spec fn view(&self) -> DefinitionRefView {
        DefinitionRefView { key: self.key@, version: self.version@ }
    }
}

impl GameDefinitionRef {
    /// Creates a versioned definition reference; the key is checked before the version.
    pub fn new(key: &str, version: &str) -> (r: IdentityResult<Self>)
        ensures
            r is Ok <==> is_definition_key(key@) && is_version_label(version@),
            r matches Ok(d) ==> d@ == (DefinitionRefView { key: key@, version: version@ }),
            r matches Err(e) ==> (if !is_definition_key(key@) {
                e == IdentityError::InvalidDefinitionKey
            } else {
                e == IdentityError::InvalidDefinitionVersion
            }),
    {
        let key = GameDefinitionKey::new(key)?;
        let version = GameDefinitionVersion::new(version)?;
        Ok(GameDefinitionRef { key, version })
    }

    pub fn key(&self) -> (r: &GameDefinitionKey)
        ensures
            r@ == self@.key,
    {
        &self.key
    }

    pub fn version(&self) -> (r: &GameDefinitionVersion)
        ensures
            r@ == self@.version,
    {
        &self.version
    }
}

impl Clone for GameDefinitionRef {
    fn clone(&self) -> (r: Self)
        ensures
            r == *self,
    {
        GameDefinitionRef { key: self.key.clone(), version: self.version.clone() }
    }
}

/// Stable identity for one runtime game session.
#[derive(Debug, Eq, Hash, Ord, PartialEq, PartialOrd)]
pub struct GameSessionId(String);

impl View for GameSessionId {
    type V = Seq<char>;

    closed spec fn view(&self) -> Seq<char> {
        self.0@
    }
}

impl GameSessionId {
    #[verifier::type_invariant]
    closed spec fn well_formed(self) -> bool {
        is_reference_id(self.0@)
    }

    /// Creates a session identity.
    pub fn new(value: &str) -> (r: IdentityResult<Self>)
        ensures
            r is Ok <==> is_reference_id(value@),
            r matches Ok(id) ==> id@ == value@,
            r matches Err(e) ==> e == IdentityError::InvalidSessionId,
    {
        if !reference_id_ok(value) {
            return Err(IdentityError::InvalidSessionId);
        }
        Ok(GameSessionId(value.to_owned()))
    }

    pub fn as_str(&self) -> (r: &str)
        ensures
            r@ == self@,
            is_reference_id(self@),
    {
        proof {
            use_type_invariant(self);
        }
        self.0.as_str()
    }
}

impl Clone for GameSessionId {
    fn clone(&self) -> (r: Self)
        ensures
            r == *self,
    {
        proof {
            use_type_invariant(self);
        }
        GameSessionId(self.0.clone())
    }
}

/// The abstract value of a [`GameSessionRef`].
pub struct SessionRefView {
    pub definition: DefinitionRefView,
    pub session_id: Seq<char>,
}

/// Typed reference to one runtime game session and its immutable rules.
#[derive(Debug, Eq, Hash, Ord, PartialEq, PartialOrd)]
pub struct GameSessionRef {
    definition: GameDefinitionRef,
    session_id: GameSessionId,
}

impl View for GameSessionRef {
    type V = SessionRefView;

    closed spec fn view(&self) -> SessionRefView {
        SessionRefView { definition: self.definition@, session_id: self.session_id@ }
    }
}

impl GameSessionRef {
    /// Creates a typed session reference.
    pub fn new(definition: GameDefinitionRef, session_id: &str) -> (r: IdentityResult<Self>)
        ensures
            r is Ok <==> is_reference_id(session_id@),
            r matches Ok(s) ==> s@ == (SessionRefView {
                definition: definition@,
                session_id: session_id@,
            }),
            r matches Err(e) ==> e == IdentityError::InvalidSessionId,
    {
        let session_id = GameSessionId::new(session_id)?;
        Ok(GameSessionRef { definition, session_id })
    }

    pub fn definition(&self) -> (r: &GameDefinitionRef)
        ensures
            r@ == self@.definition,
    {
        &self.definition
    }

    pub fn session_id(&self) -> (r: &GameSessionId)
        ensures
            r@ == self@.session_id,
    {
        &self.session_id
    }
}

impl Clone for GameSessionRef {
    fn clone(&self) -> (r: Self)
        ensures
            r == *self,
    {
        GameSessionRef { definition: self.definition.clone(), session_id: self.session_id.clone() }
    }
}

/// Stable identity for an accepted game result.
#[derive(Debug, Eq, Hash, Ord, PartialEq, PartialOrd)]
pub struct GameResultId(String);

impl View for GameResultId {
    type V = Seq<char>;

    closed spec fn view(&self) -> Seq<char> {
        self.0@
    }
}

impl GameResultId {
    #[verifier::type_invariant]
    closed spec fn well_formed(self) -> bool {
        is_reference_id(self.0@)
    }

    /// Creates a result identity.
    pub fn new(value: &str) -> (r: IdentityResult<Self>)
        ensures
            r is Ok <==> is_reference_id(value@),
            r matches Ok(id) ==> id@ == value@,
            r matches Err(e) ==> e == IdentityError::InvalidResultId,
    {
        if !reference_id_ok(value) {
            return Err(IdentityError::InvalidResultId);
        }
        Ok(GameResultId(value.to_owned()))
    }

    pub fn as_str(&self) -> (r: &str)
        ensures
            r@ == self@,
            is_reference_id(self@),
    {
        proof {
            use_type_invariant(self);
        }
        self.0.as_str()
    }
}

impl Clone for GameResultId {
    fn clone(&self) -> (r: Self)
        ensures
            r == *self,
    {
        proof {
            use_type_invariant(self);
        }
        GameResultId(self.0.clone())
    }
}

/// The abstract value of a [`GameResultRef`].
pub struct ResultRefView {
    pub session: SessionRefView,
    pub result_id: Seq<char>,
    pub version: u64,
}

/// Versioned reference to an immutable result for one session.
#[derive(Debug, Eq, Hash, Ord, PartialEq, PartialOrd)]
pub struct GameResultRef {
    session: GameSessionRef,
    result_id: GameResultId,
    version: u64,
}

impl View for GameResultRef {
    type V = ResultRefView;

    closed spec fn view(&self) -> ResultRefView {
        ResultRefView { session: self.session@, result_id: self.result_id@, version: self.version }
    }
}

impl GameResultRef {
    #[verifier::type_invariant]
    closed spec fn well_formed(self) -> bool {
        1 <= self.version <= MAX_SAFE_VERSION
    }

    /// Creates a versioned result reference. The version, from 1 to 2^53 - 1, is checked
    /// before the result identity.
    pub fn new(session: GameSessionRef, result_id: &str, version: u64) -> (r: IdentityResult<
        Self,
    >)
        ensures
            r is Ok <==> 1 <= version <= MAX_SAFE_VERSION && is_reference_id(result_id@),
            r matches Ok(res) ==> res@ == (ResultRefView {
                session: session@,
                result_id: result_id@,
                version,
            }),
            r matches Err(e) ==> (if !(1 <= version <= MAX_SAFE_VERSION) {
                e == IdentityError::InvalidResultVersion
            } else {
                e == IdentityError::InvalidResultId
            }),
    {
        if version == 0 || version > MAX_SAFE_VERSION {
            return Err(IdentityError::InvalidResultVersion);
        }
        let result_id = GameResultId::new(result_id)?;
        Ok(GameResultRef { session, result_id, version })
    }

    pub fn session(&self) -> (r: &GameSessionRef)
        ensures
            r@ == self@.session,
    {
        &self.session
    }

    pub fn result_id(&self) -> (r: &GameResultId)
        ensures
            r@ == self@.result_id,
    {
        &self.result_id
    }

    pub fn version(&self) -> (r: u64)
        ensures
            r == self@.version,
            1 <= r <= MAX_SAFE_VERSION,
    {
        proof {
            use_type_invariant(self);
        }
        self.version
    }
}

impl Clone for GameResultRef {
    fn clone(&self) -> (r: Self)
        ensures
            r == *self,
    {
        proof {
            use_type_invariant(self);
        }
        GameResultRef {
            session: self.session.clone(),
            result_id: self.result_id.clone(),
            version: self.version,
        }
    }
}

} // verus!
