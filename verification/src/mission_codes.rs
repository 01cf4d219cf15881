//! The mission-code wire format: an identifier tag, then `|`-delimited
//! elements — format version, feature count, that many feature names, a
//! gist file name, a gist URL or remote (exactly one of the two), and the
//! mission payload as the remainder.

use vstd::prelude::*;

verus! {

use crate::numbers;
use crate::text;
use vstd::string::StrSliceExecFns;

/// The tag that every mission code starts with.
pub open spec fn code_identifier() -> Seq<char> {
    "_infilengine_cm_codeless_"@
}

/// Everything that can be wrong with a mission-code string.
#[derive(Clone, Copy, PartialEq, Eq, Structural, Debug)]
pub enum MissionCodeParseError {
    CodelessVersionUnknown(usize),
    CodelessVersionMissing,
    CodelessVersionNotUInt,
    FeatureCountMissing,
    FeatureCountInvalid,
    FeatureMissing,
    GistFileMissing,
    GistRemoteMissing,
    GistURLMissing,
    HasBothGistRemoteAndURL,
    HasNoGistRemoteOrURL,
    InputWasntCode,
}

/// The diagnostic text of each parse error.
pub open spec fn error_message(e: MissionCodeParseError) -> Seq<char> {
    match e {
        MissionCodeParseError::CodelessVersionUnknown(v) => ("input strings version '"@
            + numbers::spec_decimal(v as int)) + "' is not supported"@,
        MissionCodeParseError::CodelessVersionMissing => "input string is missing codeless version"@,
        MissionCodeParseError::CodelessVersionNotUInt => "input strings version was not a uint"@,
        MissionCodeParseError::FeatureCountMissing => "input string is missing feature count"@,
        MissionCodeParseError::FeatureCountInvalid => "input string feature count wasn't valid u64"@,
        MissionCodeParseError::FeatureMissing => "input string is missing expected feature"@,
        MissionCodeParseError::GistFileMissing => "input string is missing gist filename"@,
        MissionCodeParseError::GistRemoteMissing => "input string is missing remote"@,
        MissionCodeParseError::GistURLMissing => "input string is missing gist URL"@,
        MissionCodeParseError::HasBothGistRemoteAndURL => "input string has both a gist remote and a gist URL"@,
        MissionCodeParseError::HasNoGistRemoteOrURL => "input string has neither a gist remote or gist URL"@,
        MissionCodeParseError::InputWasntCode => "input string was not valid codeless mission"@,
    }
}

impl MissionCodeParseError {
    /// The diagnostic text.
    pub fn message(&self) -> (r: String)
        ensures
            r@ == error_message(*self),
    {
        match self {
            MissionCodeParseError::CodelessVersionUnknown(v) => {
                let mut out: Vec<char> = text::chars_of("input strings version '");
                let digits = numbers::u64_to_string(*v as u64);
                text::push_str_chars(&mut out, digits.as_str());
                text::push_str_chars(&mut out, "' is not supported");
                text::string_from_chars(&out)
            },
            MissionCodeParseError::CodelessVersionMissing => "input string is missing codeless version".to_owned(),
            MissionCodeParseError::CodelessVersionNotUInt => "input strings version was not a uint".to_owned(),
            MissionCodeParseError::FeatureCountMissing => "input string is missing feature count".to_owned(),
            MissionCodeParseError::FeatureCountInvalid => "input string feature count wasn't valid u64".to_owned(),
            MissionCodeParseError::FeatureMissing => "input string is missing expected feature".to_owned(),
            MissionCodeParseError::GistFileMissing => "input string is missing gist filename".to_owned(),
            MissionCodeParseError::GistRemoteMissing => "input string is missing remote".to_owned(),
            MissionCodeParseError::GistURLMissing => "input string is missing gist URL".to_owned(),
            MissionCodeParseError::HasBothGistRemoteAndURL => "input string has both a gist remote and a gist URL".to_owned(),
            MissionCodeParseError::HasNoGistRemoteOrURL => "input string has neither a gist remote or gist URL".to_owned(),
            MissionCodeParseError::InputWasntCode => "input string was not valid codeless mission".to_owned(),
        }
    }
}

/// Split off the element before the first delimiter, or nothing if no
/// delimiter is left.
pub open spec fn split_elem(s: Seq<char>) -> Option<(Seq<char>, Seq<char>)> {
    let i = text::find_char(s, '|');
    if i == s.len() {
        None
    } else {
        Some((s.take(i), s.skip(i + 1)))
    }
}

/// The supported mission-code format versions.
#[derive(Clone, Copy, PartialEq, Eq, Structural, Debug)]
pub enum CodelessInfo {
    V0,
}

/// Reading a format version off the front of `s`: a decimal element that
/// must name a known version.
pub open spec fn spec_parse_codeless_info(s: Seq<char>) -> Result<
    (CodelessInfo, Seq<char>),
    MissionCodeParseError,
> {
    match split_elem(s) {
        None => Err(MissionCodeParseError::CodelessVersionMissing),
        Some((ver, rest)) => match numbers::spec_parse_decimal(ver) {
            None => Err(MissionCodeParseError::CodelessVersionNotUInt),
            Some(v) => if v == 0 {
                Ok((CodelessInfo::V0, rest))
            } else {
                Err(MissionCodeParseError::CodelessVersionUnknown(v as usize))
            },
        },
    }
}

impl CodelessInfo {
    /// The numeric format version.
    pub fn version(&self) -> (r: usize)
        ensures
            r == 0,
    {
        match self {
            CodelessInfo::V0 => 0,
        }
    }

    /// Read a format version off the front of `code`, handing back the
    /// remainder.
    pub fn parse_from(code: &str) -> (r: Result<(CodelessInfo, String), MissionCodeParseError>)
        ensures
            match r {
                Ok((ci, rest)) => spec_parse_codeless_info(code@) == Ok::<
                    _,
                    MissionCodeParseError,
                >((ci, rest@)),
                Err(e) => spec_parse_codeless_info(code@) == Err::<
                    (CodelessInfo, Seq<char>),
                    _,
                >(e),
            },
    {
        let v = text::chars_of(code);
        proof {
            assert(v@.skip(0) =~= v@);
        }
        let end = text::find_char_from(&v, 0, '|');
        if end == v.len() {
            return Err(MissionCodeParseError::CodelessVersionMissing);
        }
        let ver = text::copy_range(&v, 0, end);
        proof {
            assert(ver@ =~= v@.take(end as int));
        }
        let rest = text::string_of_range(&v, end + 1, v.len());
        proof {
            assert(rest@ =~= v@.skip(end + 1));
        }
        match numbers::parse_decimal(&ver) {
            None => Err(MissionCodeParseError::CodelessVersionNotUInt),
            Some(n) => {
                if n == 0 {
                    Ok((CodelessInfo::V0, rest))
                } else {
                    Err(MissionCodeParseError::CodelessVersionUnknown(n))
                }
            },
        }
    }
}

/// One repository feature named by a mission code.
#[derive(PartialEq, Eq, Debug)]
pub enum CodelessRepoFeature {
    UnknownFeature(String),
    MissionVersion(u64),
}

/// Does the feature value represent the feature element `name`?
pub open spec fn feature_is(f: CodelessRepoFeature, name: Seq<char>) -> bool {
    if name == "MissionVersion"@ {
        f == CodelessRepoFeature::MissionVersion(0)
    } else {
        match f {
            CodelessRepoFeature::UnknownFeature(t) => t@ == name,
            _ => false,
        }
    }
}

/// The display text of a feature.
pub open spec fn feature_text(f: CodelessRepoFeature) -> Seq<char> {
    match f {
        CodelessRepoFeature::MissionVersion(_) => "MissionVersion"@,
        CodelessRepoFeature::UnknownFeature(t) => ("Unknown["@ + t@) + "]"@,
    }
}

impl CodelessRepoFeature {
    /// The feature named by one feature element.
    pub fn from_str(feature_str: &str) -> (r: CodelessRepoFeature)
        ensures
            feature_is(r, feature_str@),
    {
        let v = text::chars_of(feature_str);
        if text::chars_eq_str(&v, "MissionVersion") {
            CodelessRepoFeature::MissionVersion(0)
        } else {
            CodelessRepoFeature::UnknownFeature(feature_str.to_owned())
        }
    }

    /// The display text.
    pub fn display_name(&self) -> (r: String)
        ensures
            r@ == feature_text(*self),
    {
        match self {
            CodelessRepoFeature::MissionVersion(_) => "MissionVersion".to_owned(),
            CodelessRepoFeature::UnknownFeature(t) => {
                let mut out: Vec<char> = text::chars_of("Unknown[");
                text::push_str_chars(&mut out, t.as_str());
                text::push_str_chars(&mut out, "]");
                text::string_from_chars(&out)
            },
        }
    }

    /// One processing round: a tracked mission version advances by one;
    /// anything unknown is left alone.
    pub fn repo_process(&mut self)
        requires
            match *old(self) {
                CodelessRepoFeature::MissionVersion(v) => v < u64::MAX,
                CodelessRepoFeature::UnknownFeature(_) => true,
            },
        ensures
            match *old(self) {
                CodelessRepoFeature::MissionVersion(v) => *final(self)
                    == CodelessRepoFeature::MissionVersion((v + 1) as u64),
                CodelessRepoFeature::UnknownFeature(_) => *final(self) == *old(self),
            },
    {
        match self {
            CodelessRepoFeature::MissionVersion(v) => {
                *v = *v + 1;
            },
            CodelessRepoFeature::UnknownFeature(_) => {},
        }
    }

    /// Adopt the version stored in a repository's version file: the file's
    /// text must be a decimal number.  Unknown features read nothing and
    /// always succeed.
    pub fn derive_from_text(&mut self, content: &str) -> (r: Result<(), ()>)
        ensures
            match *old(self) {
                CodelessRepoFeature::MissionVersion(_) => match numbers::spec_parse_decimal(
                    content@,
                ) {
                    Some(n) => r is Ok && *final(self) == CodelessRepoFeature::MissionVersion(
                        n as u64,
                    ),
                    None => r is Err && *final(self) == *old(self),
                },
                CodelessRepoFeature::UnknownFeature(_) => r is Ok && *final(self) == *old(self),
            },
    {
        match self {
            CodelessRepoFeature::MissionVersion(v) => {
                let chars = text::chars_of(content);
                match numbers::parse_decimal(&chars) {
                    Some(n) => {
                        *v = n as u64;
                        Ok(())
                    },
                    None => Err(()),
                }
            },
            CodelessRepoFeature::UnknownFeature(_) => Ok(()),
        }
    }
}

/// Take `n` delimited elements off the front of `s`.
pub open spec fn take_elems(s: Seq<char>, n: int) -> Result<
    (Seq<Seq<char>>, Seq<char>),
    MissionCodeParseError,
>
    decreases n,
{
    if n <= 0 {
        Ok((Seq::empty(), s))
    } else {
        match split_elem(s) {
            None => Err(MissionCodeParseError::FeatureMissing),
            Some((e, rest)) => match take_elems(rest, n - 1) {
                Ok((es, r2)) => Ok((seq![e] + es, r2)),
                Err(x) => Err(x),
            },
        }
    }
}

/// What a well-formed mission code contains, element by element.
#[verifier::ext_equal]
pub ghost struct MissionCodeModel {
    pub feature_names: Seq<Seq<char>>,
    pub gist_file: Seq<char>,
    pub gist_url: Option<Seq<char>>,
    pub gist_remote: Option<Seq<char>>,
    pub code_data: Seq<char>,
}

/// Reading the identifier tag: the text after the tag and one skipped
/// delimiter character, or why there is none.
pub open spec fn spec_parse_header(s: Seq<char>) -> Result<Seq<char>, MissionCodeParseError> {
    if !(s.len() >= code_identifier().len() && s.take(code_identifier().len() as int)
        == code_identifier()) {
        Err(MissionCodeParseError::InputWasntCode)
    } else if s.len() == code_identifier().len() {
        Err(MissionCodeParseError::CodelessVersionMissing)
    } else {
        Ok(s.skip(code_identifier().len() as int + 1))
    }
}

/// Reading the feature list: a decimal count element, then that many
/// feature-name elements.
pub open spec fn spec_parse_features(s: Seq<char>) -> Result<
    (Seq<Seq<char>>, Seq<char>),
    MissionCodeParseError,
> {
    match split_elem(s) {
        None => Err(MissionCodeParseError::FeatureCountMissing),
        Some((cnt, rest)) => match numbers::spec_parse_decimal(cnt) {
            None => Err(MissionCodeParseError::FeatureCountInvalid),
            Some(count) => take_elems(rest, count),
        },
    }
}

/// Reading the gist target: a file element, then a URL element and a remote
/// element of which exactly one must be present (the other written `None`).
pub open spec fn spec_parse_target(s: Seq<char>) -> Result<
    (Seq<char>, Option<Seq<char>>, Option<Seq<char>>, Seq<char>),
    MissionCodeParseError,
> {
    match split_elem(s) {
        None => Err(MissionCodeParseError::GistFileMissing),
        Some((file, rest4)) => match split_elem(rest4) {
            None => Err(MissionCodeParseError::GistURLMissing),
            Some((url, rest5)) => match split_elem(rest5) {
                None => Err(MissionCodeParseError::GistRemoteMissing),
                Some((remote, rest6)) => {
                    let url_opt = if url == "None"@ {
                        None
                    } else {
                        Some(url)
                    };
                    let remote_opt = if remote == "None"@ {
                        None
                    } else {
                        Some(remote)
                    };
                    if url_opt is Some && remote_opt is Some {
                        Err(MissionCodeParseError::HasBothGistRemoteAndURL)
                    } else if url_opt is None && remote_opt is None {
                        Err(MissionCodeParseError::HasNoGistRemoteOrURL)
                    } else {
                        Ok((file, url_opt, remote_opt, rest6))
                    }
                },
            },
        },
    }
}

/// The whole grammar, phase by phase.
pub open spec fn spec_parse_mission(s: Seq<char>) -> Result<
    MissionCodeModel,
    MissionCodeParseError,
> {
    match spec_parse_header(s) {
        Err(e) => Err(e),
        Ok(after) => match spec_parse_codeless_info(after) {
            Err(e) => Err(e),
            Ok((_ci, rest1)) => match spec_parse_features(rest1) {
                Err(e) => Err(e),
                Ok((names, rest3)) => match spec_parse_target(rest3) {
                    Err(e) => Err(e),
                    Ok((file, url_opt, remote_opt, rest6)) => Ok(
                        MissionCodeModel {
                            feature_names: names,
                            gist_file: file,
                            gist_url: url_opt,
                            gist_remote: remote_opt,
                            code_data: rest6,
                        },
                    ),
                },
            },
        },
    }
}

/// One parsed mission code.
#[derive(Debug)]
pub struct MissionCode {
    pub codeless_fmt_version: CodelessInfo,
    pub codeless_features: Vec<CodelessRepoFeature>,
    pub gist_file: String,
    pub gist_url: Option<String>,
    pub gist_remote: Option<String>,
    pub code_data: String,
}

/// `items` joined by `sep`.
pub open spec fn spec_join(items: Seq<Seq<char>>, sep: Seq<char>) -> Seq<char>
    decreases items.len(),
{
    if items.len() == 0 {
        Seq::empty()
    } else if items.len() == 1 {
        items[0]
    } else {
        (items[0] + sep) + spec_join(items.drop_first(), sep)
    }
}

/// Joining one more item appends a separator (except before the first) and
/// the item.
pub proof fn lemma_spec_join_push(items: Seq<Seq<char>>, sep: Seq<char>, item: Seq<char>)
    ensures
        spec_join(items.push(item), sep) == if items.len() == 0 {
            item
        } else {
            (spec_join(items, sep) + sep) + item
        },
    decreases items.len(),
{
    if items.len() == 0 {
        assert(items.push(item)[0] == item);
        assert(spec_join(items.push(item), sep) =~= item);
    } else if items.len() == 1 {
        assert(items.push(item)[0] == items[0]);
        assert(items.push(item).drop_first() =~= seq![item]);
        assert(seq![item].len() == 1);
        assert(seq![item][0] == item);
        assert(spec_join(seq![item], sep) == item);
        assert(spec_join(items.push(item), sep) =~= (items[0] + sep) + item);
        assert((spec_join(items, sep) + sep) + item =~= (items[0] + sep) + item);
    } else {
        assert(items.push(item).drop_first() =~= items.drop_first().push(item));
        lemma_spec_join_push(items.drop_first(), sep, item);
        assert(items.push(item)[0] == items[0]);
        assert(spec_join(items.push(item), sep) =~= (spec_join(items, sep) + sep) + item);
    }
}

/// The first tracked mission version among `fs`, if any.
pub open spec fn first_mission_version(fs: Seq<CodelessRepoFeature>) -> Option<u64>
    decreases fs.len(),
{
    if fs.len() == 0 {
        None
    } else {
        match fs[0] {
            CodelessRepoFeature::MissionVersion(v) => Some(v),
            CodelessRepoFeature::UnknownFeature(_) => first_mission_version(fs.drop_first()),
        }
    }
}

/// Does the parsed value carry exactly what the model says the code holds?
pub open spec fn mission_code_matches(mc: MissionCode, m: MissionCodeModel) -> bool {
    &&& mc.codeless_fmt_version == CodelessInfo::V0
    &&& mc.codeless_features@.len() == m.feature_names.len()
    &&& (forall|i: int|
        0 <= i < m.feature_names.len() ==> feature_is(
            #[trigger] mc.codeless_features@[i],
            m.feature_names[i],
        ))
    &&& mc.gist_file@ == m.gist_file
    &&& (match mc.gist_url {
        Some(ref u) => m.gist_url == Some(u@),
        None => m.gist_url is None,
    })
    &&& (match mc.gist_remote {
        Some(ref u) => m.gist_remote == Some(u@),
        None => m.gist_remote is None,
    })
    &&& mc.code_data@ == m.code_data
}

/// The public link of a freshly published mission file: the remote's URL
/// rewritten to the raw-content host, trailing slashes dropped, then the
/// commit and file under the raw path.
pub fn content_link(remote_url: &str, commit_id: &str, file: &str) -> (r: String)
    ensures
        r@ == ((((text::trim_trailing(
            text::spec_replace(remote_url@, "gist.github.com"@, "gist.githubusercontent.com"@),
            '/',
        ) + "/raw/"@) + commit_id@) + "/"@) + file@),
{
    proof {
        reveal_strlit("gist.github.com");
    }
    let uv = text::chars_of(remote_url);
    let replaced = text::replace_all(&uv, "gist.github.com", "gist.githubusercontent.com");
    let mut out = text::trim_end_char(&replaced, '/');
    text::push_str_chars(&mut out, "/raw/");
    text::push_str_chars(&mut out, commit_id);
    text::push_str_chars(&mut out, "/");
    text::push_str_chars(&mut out, file);
    text::string_from_chars(&out)
}

impl MissionCode {
    /// Parse one mission-code string, element by element, reporting the
    /// first thing wrong with it.
    #[verifier::rlimit(60)]
    pub fn parse_from(code: &str) -> (r: Result<MissionCode, MissionCodeParseError>)
        ensures
            match r {
                Ok(mc) => spec_parse_mission(code@) matches Ok(m) && mission_code_matches(mc, m),
                Err(e) => spec_parse_mission(code@) == Err::<MissionCodeModel, _>(e),
            },
    {
        let v = text::chars_of(code);
        let ident = "_infilengine_cm_codeless_";
        let idn = ident.unicode_len();
        if !text::chars_start_with(&v, ident) {
            return Err(MissionCodeParseError::InputWasntCode);
        }
        if v.len() == idn {
            return Err(MissionCodeParseError::CodelessVersionMissing);
        }
        let after = text::string_of_range(&v, idn + 1, v.len());
        proof {
            assert(after@ =~= code@.skip(code_identifier().len() as int + 1));
            assert(spec_parse_header(code@) == Ok::<_, MissionCodeParseError>(after@));
        }
        let (_ci, rest1) = match CodelessInfo::parse_from(after.as_str()) {
            Ok(p) => p,
            Err(e) => {
                return Err(e);
            },
        };
        let v2 = text::chars_of(rest1.as_str());
        proof {
            assert(v2@.skip(0) =~= v2@);
        }
        let cnt_end = text::find_char_from(&v2, 0, '|');
        if cnt_end == v2.len() {
            return Err(MissionCodeParseError::FeatureCountMissing);
        }
        let cnt_chars = text::copy_range(&v2, 0, cnt_end);
        proof {
            assert(cnt_chars@ =~= v2@.take(cnt_end as int));
        }
        let count = match numbers::parse_decimal(&cnt_chars) {
            Some(c) => c,
            None => {
                return Err(MissionCodeParseError::FeatureCountInvalid);
            },
        };
        let mut pos: usize = cnt_end + 1;
        let ghost fstart = pos as int;
        let ghost te_full = take_elems(v2@.skip(fstart), count as int);
        proof {
            assert(split_elem(v2@) == Some((cnt_chars@, v2@.skip(fstart))));
            assert(spec_parse_features(v2@) == te_full);
            assert(spec_parse_mission(code@) == (match te_full {
                Err(e) => Err::<MissionCodeModel, _>(e),
                Ok(p) => match spec_parse_target(p.1) {
                    Err(e2) => Err(e2),
                    Ok(t) => Ok(
                        MissionCodeModel {
                            feature_names: p.0,
                            gist_file: t.0,
                            gist_url: t.1,
                            gist_remote: t.2,
                            code_data: t.3,
                        },
                    ),
                },
            }));
        }
        let mut features: Vec<CodelessRepoFeature> = Vec::new();
        let ghost mut names = Seq::<Seq<char>>::empty();
        let mut k: usize = 0;
        proof {
            assert(names + Seq::<Seq<char>>::empty() =~= names);
        }
        while k < count
            invariant
                fstart == cnt_end as int + 1,
                cnt_end < v2@.len(),
                fstart <= pos <= v2@.len(),
                k <= count,
                features@.len() == k,
                names.len() == k as int,
                forall|j: int| 0 <= j < k ==> feature_is(#[trigger] features@[j], names[j]),
                te_full == take_elems(v2@.skip(fstart), count as int),
                spec_parse_mission(code@) == (match te_full {
                    Err(e) => Err::<MissionCodeModel, _>(e),
                    Ok(p) => match spec_parse_target(p.1) {
                        Err(e2) => Err(e2),
                        Ok(t) => Ok(
                            MissionCodeModel {
                                feature_names: p.0,
                                gist_file: t.0,
                                gist_url: t.1,
                                gist_remote: t.2,
                                code_data: t.3,
                            },
                        ),
                    },
                }),
                te_full == (match take_elems(v2@.skip(pos as int), count as int - k as int) {
                    Ok(p) => Ok::<_, MissionCodeParseError>((names + p.0, p.1)),
                    Err(e) => Err(e),
                }),
            decreases count - k,
        {
            let end = text::find_char_from(&v2, pos, '|');
            if end == v2.len() {
                proof {
                    assert(split_elem(v2@.skip(pos as int)) is None);
                    assert(take_elems(v2@.skip(pos as int), count as int - k as int) == Err::<
                        (Seq<Seq<char>>, Seq<char>),
                        _,
                    >(MissionCodeParseError::FeatureMissing));
                    assert(te_full == Err::<(Seq<Seq<char>>, Seq<char>), _>(
                        MissionCodeParseError::FeatureMissing,
                    ));
                }
                return Err(MissionCodeParseError::FeatureMissing);
            }
            let ghost name = v2@.subrange(pos as int, end as int);
            let fs = text::string_of_range(&v2, pos, end);
            let feat = CodelessRepoFeature::from_str(fs.as_str());
            features.push(feat);
            proof {
                let s = v2@.skip(pos as int);
                assert(s.take(end as int - pos as int) =~= name);
                assert(s.skip(end as int - pos as int + 1) =~= v2@.skip(end as int + 1));
                assert(split_elem(s) == Some((name, v2@.skip(end as int + 1))));
                let te = take_elems(v2@.skip(end as int + 1), count as int - k as int - 1);
                match te {
                    Ok(p) => {
                        assert(names + (seq![name] + p.0) =~= names.push(name) + p.0);
                    },
                    Err(_) => {},
                }
                names = names.push(name);
            }
            pos = end + 1;
            k = k + 1;
        }
        let ghost rest3 = v2@.skip(pos as int);
        proof {
            assert(take_elems(rest3, 0) == Ok::<_, MissionCodeParseError>((
                Seq::<Seq<char>>::empty(),
                rest3,
            )));
            assert(names + Seq::<Seq<char>>::empty() =~= names);
            assert(te_full == Ok::<_, MissionCodeParseError>((names, rest3)));
        }
        let f_end = text::find_char_from(&v2, pos, '|');
        if f_end == v2.len() {
            proof {
                assert(split_elem(rest3) is None);
                assert(spec_parse_target(rest3) == Err::<
                    (Seq<char>, Option<Seq<char>>, Option<Seq<char>>, Seq<char>),
                    _,
                >(MissionCodeParseError::GistFileMissing));
            }
            return Err(MissionCodeParseError::GistFileMissing);
        }
        let gist_file = text::string_of_range(&v2, pos, f_end);
        let ghost rest4 = v2@.skip(f_end as int + 1);
        proof {
            let s = rest3;
            assert(s.take(f_end as int - pos as int) =~= gist_file@);
            assert(s.skip(f_end as int - pos as int + 1) =~= rest4);
            assert(split_elem(rest3) == Some((gist_file@, rest4)));
        }
        let upos = f_end + 1;
        let u_end = text::find_char_from(&v2, upos, '|');
        if u_end == v2.len() {
            proof {
                assert(split_elem(rest4) is None);
            }
            return Err(MissionCodeParseError::GistURLMissing);
        }
        let url_chars = text::copy_range(&v2, upos, u_end);
        let ghost rest5 = v2@.skip(u_end as int + 1);
        proof {
            assert(rest4.take(u_end as int - upos as int) =~= url_chars@);
            assert(rest4.skip(u_end as int - upos as int + 1) =~= rest5);
            assert(split_elem(rest4) == Some((url_chars@, rest5)));
        }
        let rpos = u_end + 1;
        let r_end = text::find_char_from(&v2, rpos, '|');
        if r_end == v2.len() {
            proof {
                assert(split_elem(rest5) is None);
            }
            return Err(MissionCodeParseError::GistRemoteMissing);
        }
        let remote_chars = text::copy_range(&v2, rpos, r_end);
        let code_data = text::string_of_range(&v2, r_end + 1, v2.len());
        proof {
            assert(rest5.take(r_end as int - rpos as int) =~= remote_chars@);
            assert(rest5.skip(r_end as int - rpos as int + 1) =~= code_data@);
            assert(split_elem(rest5) == Some((remote_chars@, code_data@)));
        }
        let url_is_none = text::chars_eq_str(&url_chars, "None");
        let remote_is_none = text::chars_eq_str(&remote_chars, "None");
        if !url_is_none && !remote_is_none {
            return Err(MissionCodeParseError::HasBothGistRemoteAndURL);
        }
        if url_is_none && remote_is_none {
            return Err(MissionCodeParseError::HasNoGistRemoteOrURL);
        }
        let gist_url: Option<String> = if url_is_none {
            None
        } else {
            Some(text::string_from_chars(&url_chars))
        };
        let gist_remote: Option<String> = if remote_is_none {
            None
        } else {
            Some(text::string_from_chars(&remote_chars))
        };
        let mc = MissionCode {
            codeless_fmt_version: CodelessInfo::V0,
            codeless_features: features,
            gist_file,
            gist_url,
            gist_remote,
            code_data,
        };
        proof {
            let m = MissionCodeModel {
                feature_names: names,
                gist_file: mc.gist_file@,
                gist_url: if url_is_none {
                    None
                } else {
                    Some(url_chars@)
                },
                gist_remote: if remote_is_none {
                    None
                } else {
                    Some(remote_chars@)
                },
                code_data: mc.code_data@,
            };
            assert(spec_parse_target(rest3) == Ok::<_, MissionCodeParseError>((
                mc.gist_file@,
                m.gist_url,
                m.gist_remote,
                mc.code_data@,
            )));
            assert(spec_parse_mission(code@) == Ok::<_, MissionCodeParseError>(m));
            assert(mission_code_matches(mc, m));
        }
        Ok(mc)
    }

    /// The features' display names, joined by a comma and a space.
    pub fn feature_display(&self) -> (r: String)
        ensures
            r@ == spec_join(
                Seq::new(
                    self.codeless_features@.len(),
                    |i: int| feature_text(self.codeless_features@[i]),
                ),
                ", "@,
            ),
    {
        let ghost texts = Seq::new(
            self.codeless_features@.len(),
            |i: int| feature_text(self.codeless_features@[i]),
        );
        let mut out: Vec<char> = Vec::new();
        let mut i: usize = 0;
        proof {
            assert(texts.take(0) =~= Seq::<Seq<char>>::empty());
            assert(out@ =~= spec_join(texts.take(0), ", "@));
        }
        while i < self.codeless_features.len()
            invariant
                i <= self.codeless_features@.len(),
                texts == Seq::new(
                    self.codeless_features@.len(),
                    |j: int| feature_text(self.codeless_features@[j]),
                ),
                out@ == spec_join(texts.take(i as int), ", "@),
            decreases self.codeless_features@.len() - i,
        {
            if i > 0 {
                text::push_str_chars(&mut out, ", ");
            }
            let name = self.codeless_features[i].display_name();
            text::push_str_chars(&mut out, name.as_str());
            proof {
                lemma_spec_join_push(texts.take(i as int), ", "@, texts[i as int]);
                assert(texts.take(i + 1) =~= texts.take(i as int).push(texts[i as int]));
                assert(out@ =~= spec_join(texts.take(i + 1), ", "@));
            }
            i = i + 1;
        }
        proof {
            assert(texts.take(texts.len() as int) =~= texts);
        }
        text::string_from_chars(&out)
    }

    /// The file inside the repository that this mission publishes to.
    pub fn publish_target_file(&self) -> (r: String)
        ensures
            r@ == self.gist_file@,
    {
        self.gist_file.clone()
    }

    /// The remote a publish pushes to: the mission's named remote when it
    /// has one, otherwise the repository remote carrying the mission's URL.
    /// Nothing when the mission names no remote and no remote has its URL.
    pub fn publish_target_remote(&self, remotes: &Vec<crate::remotes::RemoteInfo>) -> (r: Option<
        String,
    >)
        ensures
            match self.gist_remote {
                Some(ref n) => r matches Some(s) && s@ == n@,
                None => match self.gist_url {
                    Some(ref u) => match r {
                        Some(s) => crate::remotes::spec_name_from_url(remotes@, u@) == Some(s@),
                        None => crate::remotes::spec_name_from_url(remotes@, u@) is None,
                    },
                    None => r is None,
                },
            },
    {
        match &self.gist_remote {
            Some(remote) => Some(remote.clone()),
            None => match &self.gist_url {
                Some(url) => crate::remotes::remote_name_from_url(remotes, url.as_str()),
                None => None,
            },
        }
    }

    /// The commit message: the tracked mission version if one is present,
    /// an untracked marker otherwise.
    pub fn publish_message(&self) -> (r: String)
        ensures
            r@ == match first_mission_version(self.codeless_features@) {
                Some(ver) => "Update To Newest Version - v"@ + numbers::spec_decimal(ver as int),
                None => "Update To Newest Version - Untracked"@,
            },
    {
        let mut i: usize = 0;
        let mut found: Option<u64> = None;
        proof {
            assert(self.codeless_features@.skip(0) =~= self.codeless_features@);
        }
        while i < self.codeless_features.len()
            invariant_except_break
                i <= self.codeless_features@.len(),
                found is None,
                first_mission_version(self.codeless_features@) == first_mission_version(
                    self.codeless_features@.skip(i as int),
                ),
            ensures
                match found {
                    Some(ver) => first_mission_version(self.codeless_features@) == Some(ver),
                    None => first_mission_version(self.codeless_features@)
                        == first_mission_version(self.codeless_features@.skip(i as int)) && i
                        == self.codeless_features@.len(),
                },
            decreases self.codeless_features@.len() - i,
        {
            proof {
                assert(self.codeless_features@.skip(i as int)[0] == self.codeless_features@[i as int]);
                assert(self.codeless_features@.skip(i as int).drop_first() =~= self.codeless_features@.skip(
                    i + 1,
                ));
            }
            match &self.codeless_features[i] {
                CodelessRepoFeature::MissionVersion(v) => {
                    found = Some(*v);
                    proof {
                        assert(first_mission_version(self.codeless_features@) == Some(*v));
                    }
                    break ;
                },
                CodelessRepoFeature::UnknownFeature(_) => {},
            }
            i = i + 1;
        }
        proof {
            if found is None {
                assert(self.codeless_features@.skip(self.codeless_features@.len() as int)
                    =~= Seq::<CodelessRepoFeature>::empty());
            }
        }
        match found {
            Some(ver) => {
                let mut out: Vec<char> = text::chars_of("Update To Newest Version - v");
                let digits = numbers::u64_to_string(ver);
                text::push_str_chars(&mut out, digits.as_str());
                text::string_from_chars(&out)
            },
            None => "Update To Newest Version - Untracked".to_owned(),
        }
    }
}

} // verus!
