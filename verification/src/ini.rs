//! The OCI credentials file: an INI text of `[profile]` sections holding
//! `key = value` lines, and the choice of one profile from it.
use vstd::prelude::*;

use crate::config::{OciCredentials, OciProfileConfig};
use crate::keyed::KeyedVec;
use crate::text::{
    char_index, concat2, concat3, ends_with, find_char, split_lines, starts_with, string_of_range,
    trim, trim_bounds, chars_of, copy_str, lines,
};

verus! {

/// The five strings of a profile.
pub ghost struct CredentialsView {
    pub user: Seq<char>,
    pub fingerprint: Seq<char>,
    pub tenancy: Seq<char>,
    pub region: Seq<char>,
    pub key_file: Seq<char>,
}

impl View for OciCredentials {
    type V = CredentialsView;

    open spec fn view(&self) -> CredentialsView {
        CredentialsView {
            user: self.user@,
            fingerprint: self.fingerprint@,
            tenancy: self.tenancy@,
            region: self.region@,
            key_file: self.key_file@,
        }
    }
}

/// Why a credentials file was refused.
#[derive(Debug, PartialEq, Eq)]
pub enum IniError {
    /// A line that is neither blank, a comment, a section header nor
    /// `key = value`; it holds the trimmed line.
    InvalidLine(String),
    /// A section that lacks one of the five required keys.
    MissingField { key: String, section: String },
    /// A file without any section.
    NoProfiles,
}

/// The meaning of an [`IniError`].
pub ghost enum IniFault {
    InvalidLine(Seq<char>),
    MissingField(Seq<char>, Seq<char>),
    NoProfiles,
}

impl View for IniError {
    type V = IniFault;

    open spec fn view(&self) -> IniFault {
        match self {
            IniError::InvalidLine(l) => IniFault::InvalidLine(l@),
            IniError::MissingField { key, section } => IniFault::MissingField(key@, section@),
            IniError::NoProfiles => IniFault::NoProfiles,
        }
    }
}

/// The parser's state between two lines.
pub ghost struct IniState {
    pub profiles: Map<Seq<char>, CredentialsView>,
    pub section: Option<Seq<char>>,
    pub fields: Map<Seq<char>, Seq<char>>,
}

/// The profile that the keys of section `section` make, or the first of
/// `user`, `fingerprint`, `tenancy`, `region`, `key_file` that it lacks.
pub open spec fn profile_from_fields(section: Seq<char>, fields: Map<Seq<char>, Seq<char>>) -> Result<
    CredentialsView,
    IniFault,
> {
    if !fields.contains_key("user"@) {
        Err(IniFault::MissingField("user"@, section))
    } else if !fields.contains_key("fingerprint"@) {
        Err(IniFault::MissingField("fingerprint"@, section))
    } else if !fields.contains_key("tenancy"@) {
        Err(IniFault::MissingField("tenancy"@, section))
    } else if !fields.contains_key("region"@) {
        Err(IniFault::MissingField("region"@, section))
    } else if !fields.contains_key("key_file"@) {
        Err(IniFault::MissingField("key_file"@, section))
    } else {
        Ok(
            CredentialsView {
                user: fields["user"@],
                fingerprint: fields["fingerprint"@],
                tenancy: fields["tenancy"@],
                region: fields["region"@],
                key_file: fields["key_file"@],
            },
        )
    }
}

/// One line of the file read in state `st`. Blank lines and lines that start
/// with `#` or `;` change nothing. A `[name]` header closes the open section
/// (its keys must make a profile, stored under its name) and opens `name`;
/// keys read before the first header stay for the first section. Any other
/// line must hold a `=`, and sets the trimmed text before the first `=` to
/// the trimmed text after it.
pub open spec fn ini_step(st: IniState, line: Seq<char>) -> Result<IniState, IniFault> {
    let t = trim(line);
    if t.len() == 0 || starts_with(t, "#"@) || starts_with(t, ";"@) {
        Ok(st)
    } else if starts_with(t, "["@) && ends_with(t, "]"@) {
        let name = trim(t.subrange(1, t.len() - 1));
        match st.section {
            None => Ok(IniState { section: Some(name), ..st }),
            Some(sec) => match profile_from_fields(sec, st.fields) {
                Err(e) => Err(e),
                Ok(p) => Ok(
                    IniState {
                        profiles: st.profiles.insert(sec, p),
                        section: Some(name),
                        fields: Map::empty(),
                    },
                ),
            },
        }
    } else {
        let i = char_index(t, '=', 0);
        if i >= t.len() {
            Err(IniFault::InvalidLine(t))
        } else {
            Ok(IniState { fields: st.fields.insert(trim(t.take(i)), trim(t.skip(i + 1))), ..st })
        }
    }
}

/// The lines read one after the other from state `st`; the first refused
/// line ends the reading.
pub open spec fn ini_fold(ls: Seq<Seq<char>>, st: IniState) -> Result<IniState, IniFault>
    decreases ls.len(),
{
    if ls.len() == 0 {
        Ok(st)
    } else {
        match ini_step(st, ls[0]) {
            Err(e) => Err(e),
            Ok(next) => ini_fold(ls.drop_first(), next),
        }
    }
}

/// The end of the file: the open section is closed as a header would close
/// it, and a file without profiles is refused.
pub open spec fn ini_finish(st: IniState) -> Result<Map<Seq<char>, CredentialsView>, IniFault> {
    let closed = match st.section {
        None => Ok(st.profiles),
        Some(sec) => match profile_from_fields(sec, st.fields) {
            Err(e) => Err(e),
            Ok(p) => Ok(st.profiles.insert(sec, p)),
        },
    };
    match closed {
        Err(e) => Err(e),
        Ok(m) => if m == Map::<Seq<char>, CredentialsView>::empty() {
            Err(IniFault::NoProfiles)
        } else {
            Ok(m)
        },
    }
}

/// The state before the first line.
pub open spec fn ini_start() -> IniState {
    IniState { profiles: Map::empty(), section: None, fields: Map::empty() }
}

/// The profiles of the credentials file `raw`, by name, or why it is refused.
pub open spec fn parse_oci_ini(raw: Seq<char>) -> Result<Map<Seq<char>, CredentialsView>, IniFault> {
    match ini_fold(lines(raw), ini_start()) {
        Err(e) => Err(e),
        Ok(st) => ini_finish(st),
    }
}

/// Reading two runs of lines is reading the first, then the second from
/// where the first left off.
proof fn lemma_fold_concat(a: Seq<Seq<char>>, b: Seq<Seq<char>>, st: IniState)
    ensures
        ini_fold(a + b, st) == match ini_fold(a, st) {
            Ok(m) => ini_fold(b, m),
            Err(e) => Err(e),
        },
    decreases a.len(),
{
    if a.len() == 0 {
        assert(a + b =~= b);
    } else {
        assert((a + b)[0] == a[0]);
        assert((a + b).drop_first() =~= a.drop_first() + b);
        match ini_step(st, a[0]) {
            Ok(next) => {
                lemma_fold_concat(a.drop_first(), b, next);
            },
            Err(_) => {},
        }
    }
}

/// Blank lines and comment lines (starting with `#` or `;` after leading
/// whitespace) can stand anywhere without changing what is read.
pub proof fn law_comments_are_ignored(
    a: Seq<Seq<char>>,
    c: Seq<char>,
    b: Seq<Seq<char>>,
    st: IniState,
)
    requires
        trim(c).len() == 0 || trim(c)[0] == '#' || trim(c)[0] == ';',
    ensures
        ini_fold(a + seq![c] + b, st) == ini_fold(a + b, st),
{
    reveal_strlit("#");
    reveal_strlit(";");
    let t = trim(c);
    if t.len() > 0 {
        if t[0] == '#' {
            assert(t.subrange(0, 1) =~= "#"@);
        } else {
            assert(t.subrange(0, 1) =~= ";"@);
        }
    }
    assert(ini_step(st, c) == Ok::<IniState, IniFault>(st));
    assert(a + seq![c] + b =~= a + (seq![c] + b));
    lemma_fold_concat(a, seq![c] + b, st);
    lemma_fold_concat(a, b, st);
    assert((seq![c] + b)[0] == c);
    assert((seq![c] + b).drop_first() =~= b);
    match ini_fold(a, st) {
        Ok(m) => {
            assert(ini_step(m, c) == Ok::<IniState, IniFault>(m));
        },
        Err(_) => {},
    }
}

/// A line that is not blank, a comment or a `[...]` header and holds no `=`
/// is refused, and the error holds the trimmed line.
pub proof fn law_line_without_equals_is_refused(st: IniState, line: Seq<char>)
    requires
        ({
            let t = trim(line);
            &&& t.len() > 0
            &&& t[0] != '#' && t[0] != ';'
            &&& !(t[0] == '[' && t.last() == ']')
            &&& forall|k: int| 0 <= k < t.len() ==> t[k] != '='
        }),
    ensures
        ini_step(st, line) == Err::<IniState, IniFault>(IniFault::InvalidLine(trim(line))),
{
    reveal_strlit("#");
    reveal_strlit(";");
    reveal_strlit("[");
    reveal_strlit("]");
    let t = trim(line);
    assert(!starts_with(t, "#"@)) by {
        if starts_with(t, "#"@) {
            assert(t.subrange(0, 1)[0] == t[0]);
        }
    }
    assert(!starts_with(t, ";"@)) by {
        if starts_with(t, ";"@) {
            assert(t.subrange(0, 1)[0] == t[0]);
        }
    }
    assert(!(starts_with(t, "["@) && ends_with(t, "]"@))) by {
        if starts_with(t, "["@) && ends_with(t, "]"@) {
            assert(t.subrange(0, 1)[0] == t[0]);
            assert(t.subrange(t.len() - 1, t.len() as int)[0] == t.last());
        }
    }
    lemma_no_equals(t);
}

/// A `key = value` line (its first `=` at `i` of the trimmed line) sets the
/// trimmed key to the trimmed value, and leaves the rest of the state.
pub proof fn law_key_line_sets_field(st: IniState, line: Seq<char>, i: int)
    requires
        ({
            let t = trim(line);
            &&& 0 <= i < t.len()
            &&& t[i] == '='
            &&& forall|k: int| 0 <= k < i ==> t[k] != '='
            &&& t[0] != '#' && t[0] != ';'
            &&& !(t[0] == '[' && t.last() == ']')
        }),
    ensures
        ({
            let t = trim(line);
            ini_step(st, line) == Ok::<IniState, IniFault>(
                IniState {
                    profiles: st.profiles,
                    section: st.section,
                    fields: st.fields.insert(trim(t.subrange(0, i)), trim(t.subrange(i + 1, t.len() as int))),
                },
            )
        }),
{
    reveal_strlit("#");
    reveal_strlit(";");
    reveal_strlit("[");
    reveal_strlit("]");
    let t = trim(line);
    assert(!starts_with(t, "#"@)) by {
        if starts_with(t, "#"@) {
            assert(t.subrange(0, 1)[0] == t[0]);
        }
    }
    assert(!starts_with(t, ";"@)) by {
        if starts_with(t, ";"@) {
            assert(t.subrange(0, 1)[0] == t[0]);
        }
    }
    assert(!(starts_with(t, "["@) && ends_with(t, "]"@))) by {
        if starts_with(t, "["@) && ends_with(t, "]"@) {
            assert(t.subrange(0, 1)[0] == t[0]);
            assert(t.subrange(t.len() - 1, t.len() as int)[0] == t.last());
        }
    }
    lemma_first_equals(t, 0, i);
    assert(t.take(i) =~= t.subrange(0, i));
    assert(t.skip(i + 1) =~= t.subrange(i + 1, t.len() as int));
}

proof fn lemma_first_equals(t: Seq<char>, from: int, i: int)
    requires
        0 <= from <= i < t.len(),
        t[i] == '=',
        forall|k: int| 0 <= k < i ==> t[k] != '=',
    ensures
        char_index(t, '=', from) == i,
    decreases i - from,
{
    if from < i {
        lemma_first_equals(t, from + 1, i);
    }
}

/// A section's keys make a profile exactly when all five of `user`,
/// `fingerprint`, `tenancy`, `region` and `key_file` are there; the profile
/// holds their values, and otherwise the first missing one, in that order,
/// is named with the section.
pub proof fn law_profile_needs_five_keys(section: Seq<char>, f: Map<Seq<char>, Seq<char>>)
    ensures
        ({
            let all = f.contains_key("user"@) && f.contains_key("fingerprint"@) && f.contains_key(
                "tenancy"@,
            ) && f.contains_key("region"@) && f.contains_key("key_file"@);
            &&& all ==> profile_from_fields(section, f) == Ok::<CredentialsView, IniFault>(
                CredentialsView {
                    user: f["user"@],
                    fingerprint: f["fingerprint"@],
                    tenancy: f["tenancy"@],
                    region: f["region"@],
                    key_file: f["key_file"@],
                },
            )
            &&& !f.contains_key("user"@) ==> profile_from_fields(section, f) == Err::<
                CredentialsView,
                IniFault,
            >(IniFault::MissingField("user"@, section))
            &&& f.contains_key("user"@) && !f.contains_key("fingerprint"@) ==> profile_from_fields(
                section,
                f,
            ) == Err::<CredentialsView, IniFault>(IniFault::MissingField("fingerprint"@, section))
            &&& f.contains_key("user"@) && f.contains_key("fingerprint"@) && !f.contains_key(
                "tenancy"@,
            ) ==> profile_from_fields(section, f) == Err::<CredentialsView, IniFault>(
                IniFault::MissingField("tenancy"@, section),
            )
            &&& f.contains_key("user"@) && f.contains_key("fingerprint"@) && f.contains_key(
                "tenancy"@,
            ) && !f.contains_key("region"@) ==> profile_from_fields(section, f) == Err::<
                CredentialsView,
                IniFault,
            >(IniFault::MissingField("region"@, section))
            &&& f.contains_key("user"@) && f.contains_key("fingerprint"@) && f.contains_key(
                "tenancy"@,
            ) && f.contains_key("region"@) && !f.contains_key("key_file"@) ==> profile_from_fields(
                section,
                f,
            ) == Err::<CredentialsView, IniFault>(IniFault::MissingField("key_file"@, section))
        }),
{
}

/// Without a `=` the search for one runs to the end.
proof fn lemma_no_equals(t: Seq<char>)
    requires
        forall|k: int| 0 <= k < t.len() ==> t[k] != '=',
    ensures
        char_index(t, '=', 0) >= t.len(),
{
    lemma_char_index_past(t, 0);
}

proof fn lemma_char_index_past(t: Seq<char>, from: int)
    requires
        0 <= from <= t.len(),
        forall|k: int| 0 <= k < t.len() ==> t[k] != '=',
    ensures
        char_index(t, '=', from) >= t.len(),
    decreases t.len() - from,
{
    if from < t.len() {
        lemma_char_index_past(t, from + 1);
    }
}

/// The profiles of a credentials file.
#[derive(Debug)]
pub struct OciIniConfig {
    pub profiles: KeyedVec<OciCredentials>,
}

impl OciIniConfig {
    pub open spec fn wf(&self) -> bool {
        self.profiles.wf()
    }

    /// The profiles by name.
    pub open spec fn profile_map(&self) -> Map<Seq<char>, CredentialsView> {
        self.profiles.map()
    }

    /// The profile called `name`.
    pub fn get(&self, name: &str) -> (r: Option<&OciCredentials>)
        requires
            self.wf(),
        ensures
            match r {
                Some(c) => self.profile_map().contains_key(name@) && self.profile_map()[name@]
                    == c@,
                None => !self.profile_map().contains_key(name@),
            },
    {
        self.profiles.get(name)
    }

    /// The number of profiles.
    pub fn len(&self) -> (r: usize)
        requires
            self.wf(),
        ensures
            r == self.profile_map().dom().len(),
    {
        self.profiles.len()
    }

    /// Reads the text of a credentials file.
    pub fn parse(raw: &str) -> (r: Result<OciIniConfig, IniError>)
        ensures
            match r {
                Ok(c) => c.wf() && parse_oci_ini(raw@) == Ok::<
                    Map<Seq<char>, CredentialsView>,
                    IniFault,
                >(c.profile_map()),
                Err(e) => parse_oci_ini(raw@) == Err::<Map<Seq<char>, CredentialsView>, IniFault>(
                    e@,
                ),
            },
    {
        let ls = split_lines(raw);
        let ghost lv = ls@.map_values(|l: String| l@);
        let mut p = IniParser::new();
        let mut i: usize = 0;
        assert(lv.skip(0) =~= lv);
        while i < ls.len()
            invariant
                lv == ls@.map_values(|l: String| l@),
                lv == lines(raw@),
                i <= ls.len(),
                p.wf(),
                ini_fold(lv, ini_start()) == ini_fold(lv.skip(i as int), p.state()),
            decreases ls.len() - i,
        {
            let ghost before = p.state();
            let step = p.feed(ls[i].as_str());
            proof {
                assert(lv.skip(i as int)[0] == ls@[i as int]@);
                assert(lv.skip(i as int).drop_first() =~= lv.skip(i + 1));
            }
            match step {
                Ok(()) => {},
                Err(e) => {
                    return Err(e);
                },
            }
            i = i + 1;
        }
        assert(lv.skip(i as int) =~= Seq::<Seq<char>>::empty());
        p.finish()
    }
}

/// The parser between two lines.
struct IniParser {
    profiles: KeyedVec<OciCredentials>,
    section: Option<String>,
    fields: KeyedVec<String>,
}

impl IniParser {
    spec fn wf(&self) -> bool {
        self.profiles.wf() && self.fields.wf()
    }

    spec fn state(&self) -> IniState {
        IniState {
            profiles: self.profiles.map(),
            section: match self.section {
                Some(s) => Some(s@),
                None => None,
            },
            fields: self.fields.map(),
        }
    }

    fn new() -> (r: Self)
        ensures
            r.wf(),
            r.state() == ini_start(),
    {
        IniParser { profiles: KeyedVec::new(), section: None, fields: KeyedVec::new() }
    }

    /// Reads one line.
    fn feed(&mut self, line: &str) -> (r: Result<(), IniError>)
        requires
            old(self).wf(),
        ensures
            final(self).wf(),
            match r {
                Ok(()) => ini_step(old(self).state(), line@) == Ok::<IniState, IniFault>(
                    final(self).state(),
                ),
                Err(e) => ini_step(old(self).state(), line@) == Err::<IniState, IniFault>(e@),
            },
    {
        let v = chars_of(line);
        let (a, b) = trim_bounds(&v, 0, v.len());
        let ghost t = v@.subrange(a as int, b as int);
        assert(v@.subrange(0, v@.len() as int) =~= v@);
        assert(t == trim(line@));
        if a == b {
            return Ok(());
        }
        if v[a] == '#' || v[a] == ';' {
            proof {
                reveal_strlit("#");
                reveal_strlit(";");
                if v[a as int] == '#' {
                    assert(t.subrange(0, 1) =~= "#"@);
                } else {
                    assert(t.subrange(0, 1) =~= ";"@);
                }
            }
            return Ok(());
        }
        proof {
            reveal_strlit("#");
            reveal_strlit(";");
            reveal_strlit("[");
            reveal_strlit("]");
            assert(!starts_with(t, "#"@)) by {
                if starts_with(t, "#"@) {
                    assert(t.subrange(0, 1)[0] == t[0]);
                }
            }
            assert(!starts_with(t, ";"@)) by {
                if starts_with(t, ";"@) {
                    assert(t.subrange(0, 1)[0] == t[0]);
                }
            }
        }
        if v[a] == '[' && v[b - 1] == ']' {
            proof {
                assert(t.subrange(0, 1) =~= "["@);
                assert(t.subrange(t.len() - 1, t.len() as int) =~= "]"@);
            }
            let (na, nb) = trim_bounds(&v, a + 1, b - 1);
            assert(v@.subrange(a + 1, b - 1) =~= t.subrange(1, t.len() - 1));
            let name = string_of_range(&v, na, nb);
            let old_section = self.section.take();
            match old_section {
                None => {},
                Some(sec) => {
                    let profile = parse_profile(&sec, &self.fields);
                    match profile {
                        Err(e) => {
                            self.section = Some(sec);
                            return Err(e);
                        },
                        Ok(p) => {
                            self.profiles.insert(sec, p);
                            self.fields.clear();
                        },
                    }
                },
            }
            self.section = Some(name);
            return Ok(());
        }
        proof {
            if starts_with(t, "["@) && ends_with(t, "]"@) {
                assert(t.subrange(0, 1)[0] == t[0]);
                assert(t.subrange(t.len() - 1, t.len() as int)[0] == t[t.len() - 1]);
            }
        }
        let i = find_char(&v, '=', a, b);
        if i == b - a {
            return Err(IniError::InvalidLine(string_of_range(&v, a, b)));
        }
        let (ka, kb) = trim_bounds(&v, a, a + i);
        let (va, vb) = trim_bounds(&v, a + i + 1, b);
        proof {
            assert(v@.subrange(a as int, a + i) =~= t.take(i as int));
            assert(v@.subrange(a + i + 1, b as int) =~= t.skip(i + 1));
        }
        let key = string_of_range(&v, ka, kb);
        let value = string_of_range(&v, va, vb);
        self.fields.insert(key, value);
        Ok(())
    }

    /// Closes the open section and hands out the profiles.
    fn finish(self) -> (r: Result<OciIniConfig, IniError>)
        requires
            self.wf(),
        ensures
            match r {
                Ok(c) => c.wf() && ini_finish(self.state()) == Ok::<
                    Map<Seq<char>, CredentialsView>,
                    IniFault,
                >(c.profile_map()),
                Err(e) => ini_finish(self.state()) == Err::<
                    Map<Seq<char>, CredentialsView>,
                    IniFault,
                >(e@),
            },
    {
        let IniParser { mut profiles, section, fields } = self;
        match section {
            None => {},
            Some(sec) => {
                let profile = parse_profile(&sec, &fields);
                match profile {
                    Err(e) => {
                        return Err(e);
                    },
                    Ok(p) => {
                        profiles.insert(sec, p);
                    },
                }
            },
        }
        if profiles.entries.len() == 0 {
            assert(profiles.map() =~= Map::<Seq<char>, CredentialsView>::empty());
            return Err(IniError::NoProfiles);
        }
        proof {
            crate::keyed::lemma_entries_map_first(profiles.entries@);
        }
        Ok(OciIniConfig { profiles })
    }
}

/// The value under `key`, or the error that names the key and the section.
fn required_field(fields: &KeyedVec<String>, key: &str, section: &String) -> (r: Result<
    String,
    IniError,
>)
    requires
        fields.wf(),
    ensures
        match r {
            Ok(v) => fields.map().contains_key(key@) && fields.map()[key@] == v@,
            Err(e) => !fields.map().contains_key(key@) && e@ == IniFault::MissingField(
                key@,
                section@,
            ),
        },
{
    match fields.get(key) {
        Some(v) => Ok(v.clone()),
        None => Err(IniError::MissingField { key: copy_str(key), section: section.clone() }),
    }
}

/// The profile that the keys of `section` make.
pub fn parse_profile(section: &String, fields: &KeyedVec<String>) -> (r: Result<
    OciCredentials,
    IniError,
>)
    requires
        fields.wf(),
    ensures
        match r {
            Ok(c) => profile_from_fields(section@, fields.map()) == Ok::<
                CredentialsView,
                IniFault,
            >(c@),
            Err(e) => profile_from_fields(section@, fields.map()) == Err::<
                CredentialsView,
                IniFault,
            >(e@),
        },
{
    let user = required_field(fields, "user", section)?;
    let fingerprint = required_field(fields, "fingerprint", section)?;
    let tenancy = required_field(fields, "tenancy", section)?;
    let region = required_field(fields, "region", section)?;
    let key_file = required_field(fields, "key_file", section)?;
    Ok(OciCredentials { user, fingerprint, tenancy, region, key_file })
}

/// Why no credentials came out of the `[oci]` section.
#[derive(Debug, PartialEq, Eq)]
pub enum CredentialsError {
    /// The credentials file was refused.
    Ini(IniError),
    /// The file holds no profile of the requested name.
    ProfileNotFound(String),
}

impl OciProfileConfig {
    /// The profile `self.profile` of the credentials file whose text is
    /// `ini_text`.
    pub fn resolve_credentials(&self, ini_text: &str) -> (r: Result<
        OciCredentials,
        CredentialsError,
    >)
        ensures
            match parse_oci_ini(ini_text@) {
                Err(f) => match r {
                    Err(CredentialsError::Ini(e)) => e@ == f,
                    _ => false,
                },
                Ok(m) => if m.contains_key(self.profile@) {
                    match r {
                        Ok(c) => c@ == m[self.profile@],
                        _ => false,
                    }
                } else {
                    match r {
                        Err(CredentialsError::ProfileNotFound(p)) => p@ == self.profile@,
                        _ => false,
                    }
                },
            },
    {
        let ini = match OciIniConfig::parse(ini_text) {
            Ok(ini) => ini,
            Err(e) => {
                return Err(CredentialsError::Ini(e));
            },
        };
        match ini.get(self.profile.as_str()) {
            Some(c) => Ok(c.clone()),
            None => Err(CredentialsError::ProfileNotFound(self.profile.clone())),
        }
    }
}

impl IniError {
    /// The text of this error for the file at `path`.
    pub fn message(&self, path: &str) -> (r: String)
        ensures
            r@ == match self {
                IniError::InvalidLine(l) => "invalid OCI config line: "@ + l@,
                IniError::MissingField { key, section } => "missing '"@ + key@
                    + "' in OCI profile ["@ + section@ + "]"@,
                IniError::NoProfiles => "OCI config file has no profiles: "@ + path@,
            },
    {
        match self {
            IniError::InvalidLine(l) => concat2("invalid OCI config line: ", l.as_str()),
            IniError::MissingField { key, section } => {
                let mut s = concat3("missing '", key.as_str(), "' in OCI profile [");
                s.append(section.as_str());
                s.append("]");
                s
            },
            IniError::NoProfiles => concat2("OCI config file has no profiles: ", path),
        }
    }
}

impl CredentialsError {
    /// The text of this error for the credentials file at `path`.
    pub fn message(&self, path: &str) -> (r: String)
        ensures
            r@ == match self {
                CredentialsError::Ini(e) => match e {
                    IniError::InvalidLine(l) => "invalid OCI config line: "@ + l@,
                    IniError::MissingField { key, section } => "missing '"@ + key@
                        + "' in OCI profile ["@ + section@ + "]"@,
                    IniError::NoProfiles => "OCI config file has no profiles: "@ + path@,
                },
                CredentialsError::ProfileNotFound(p) => "OCI profile '"@ + p@ + "' not found in "@
                    + path@,
            },
    {
        match self {
            CredentialsError::Ini(e) => e.message(path),
            CredentialsError::ProfileNotFound(p) => {
                let mut s = concat3("OCI profile '", p.as_str(), "' not found in ");
                s.append(path);
                s
            },
        }
    }
}

} // verus!
