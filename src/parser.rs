use vstd::prelude::*;
use vstd::string::{StrSliceExecFns, StringExecFns};

verus! {

#[verifier::external_type_specification]
#[verifier::external_body]
pub struct ExRegex(regex::Regex);

#[verifier::external_type_specification]
#[verifier::external_body]
pub struct ExPathBuf(std::path::PathBuf);

/// The current scheme's declaration: `scheme: &name`.
pub const CURRENT_SCHEME_PATTERN: &'static str = r"\bscheme:\s{1}&[A-Za-z0-9_]+";

/// Prefix of the current scheme's declaration, before its name.
pub const CURRENT_SCHEME_PREFIX: &'static str = "scheme: &";

/// The current scheme's whole block: its header and indented lines.
pub const SCHEME_BLOCK_PATTERN: &'static str = r"\bscheme:.*(?:\n\s{2,}.+)+";

/// The line that selects the colors.
pub const COLORS_PATTERN: &'static str = r"\bcolors:.*";

/// An anchor that names a scheme in the collection: `&name`.
pub const ANCHOR_PATTERN: &'static str = r"&[A-Za-z0-9_-]+";

/// What follows a scheme's name in the collection: the rest of its header
/// and its indented lines.
pub const SCHEME_BODY_PATTERN: &'static str = r":.*(?:\n\s{4,}.+)+";

/// The environment variable that a candidate path starts with: `$NAME`.
pub const HOME_VAR_PATTERN: &'static str = r"^\$[A-Z_]+";

/// Whether `pattern` compiles to a regular expression.
pub uninterp spec fn compiles(pattern: Seq<char>) -> bool;

/// The leftmost-first match of `pattern` in `text`.
pub uninterp spec fn leftmost_match(pattern: Seq<char>, text: Seq<char>) -> Option<Seq<char>>;

/// The successive non-overlapping matches of `pattern` in `text`.
pub uninterp spec fn all_matches(pattern: Seq<char>, text: Seq<char>) -> Seq<Seq<char>>;

/// `text` with the first match of `pattern` replaced by `rep`, where `$name`
/// in `rep` stands for a capture group.
pub uninterp spec fn replace_first(pattern: Seq<char>, text: Seq<char>, rep: Seq<char>) -> Seq<
    char,
>;

/// Relies on `regex::Regex::new`: whether it succeeds depends on the pattern
/// alone.
#[verifier::external_body]
fn compile(source: &str) -> (r: Option<regex::Regex>)
    ensures
        r is Some <==> compiles(source@),
{
    regex::Regex::new(source).ok()
}

/// A compiled regular expression and the pattern it was compiled from.
struct Pattern {
    source: String,
    re: regex::Regex,
}

impl Pattern {
    fn new(source: &str) -> (r: Option<Pattern>)
        ensures
            r is Some <==> compiles(source@),
            r matches Some(p) ==> p.source@ == source@,
    {
        match compile(source) {
            Some(re) => Some(Pattern { source: String::from_str(source), re }),
            None => None,
        }
    }
}

/// Relies on `regex::Regex::find`: the leftmost-first match, taken as text.
#[verifier::external_body]
fn find_first(p: &Pattern, text: &str) -> (r: Option<String>)
    ensures
        r matches Some(m) ==> leftmost_match(p.source@, text@) == Some(m@),
        r is None ==> leftmost_match(p.source@, text@) is None,
{
    p.re.find(text).map(|m| m.as_str().to_string())
}

/// Relies on `regex::Regex::find_iter`: every match in order, taken as text.
#[verifier::external_body]
fn find_all(p: &Pattern, text: &str) -> (r: Vec<String>)
    ensures
        texts_of(r@) == all_matches(p.source@, text@),
{
    p.re.find_iter(text).map(|m| m.as_str().to_string()).collect()
}

/// Relies on `regex::Regex::replace` with a string replacement: the first
/// match replaced, with `$` references expanded.
#[verifier::external_body]
fn replace(p: &Pattern, text: &str, rep: &str) -> (r: String)
    ensures
        r@ == replace_first(p.source@, text@, rep@),
{
    p.re.replace(text, rep).into_owned()
}

/// `s` with every leading repetition of a non-empty `prefix` removed.
pub open spec fn strip_leading(s: Seq<char>, prefix: Seq<char>) -> Seq<char>
    decreases s.len(),
{
    if 0 < prefix.len() <= s.len() && s.subrange(0, prefix.len() as int) == prefix {
        strip_leading(s.subrange(prefix.len() as int, s.len() as int), prefix)
    } else {
        s
    }
}

/// Whether `prefix` occurs in `s` at character position `at`.
fn starts_at(s: &str, prefix: &str, at: usize) -> (r: bool)
    requires
        at <= s@.len(),
    ensures
        r == (at + prefix@.len() <= s@.len() && s@.subrange(at as int, at + prefix@.len())
            == prefix@),
{
    let n = s.unicode_len();
    let k = prefix.unicode_len();
    if k > n - at {
        return false;
    }
    let mut j: usize = 0;
    while j < k
        invariant
            j <= k,
            k == prefix@.len(),
            n == s@.len(),
            at + k <= n,
            forall|i: int| 0 <= i < j ==> s@[at + i] == prefix@[i],
        decreases k - j,
    {
        if s.get_char(at + j) != prefix.get_char(j) {
            assert(s@.subrange(at as int, at + k)[j as int] != prefix@[j as int]);
            return false;
        }
        j = j + 1;
    }
    assert(s@.subrange(at as int, at + k) =~= prefix@);
    true
}

/// Removes every leading repetition of `prefix` from `s`, as
/// `str::trim_start_matches` does.
fn trim_leading(s: &str, prefix: &str) -> (r: String)
    ensures
        prefix@.len() > 0 ==> r@ == strip_leading(s@, prefix@),
        prefix@.len() == 0 ==> r@ == s@,
{
    let n = s.unicode_len();
    let k = prefix.unicode_len();
    if k == 0 {
        return String::from_str(s);
    }
    let mut start: usize = 0;
    assert(s@.subrange(0, n as int) =~= s@);
    while starts_at(s, prefix, start)
        invariant
            start <= n,
            n == s@.len(),
            k == prefix@.len(),
            k > 0,
            strip_leading(s@, prefix@) == strip_leading(s@.subrange(start as int, n as int), prefix@),
        decreases n - start,
    {
        let ghost t = s@.subrange(start as int, n as int);
        assert(t.subrange(0, k as int) =~= s@.subrange(start as int, start + k));
        assert(t.subrange(k as int, t.len() as int) =~= s@.subrange(start + k, n as int));
        start = start + k;
    }
    let ghost t = s@.subrange(start as int, n as int);
    assert(k <= t.len() ==> t.subrange(0, k as int) =~= s@.subrange(start as int, start + k));
    String::from_str(s.substring_char(start, n))
}

/// File name of the main configuration.
pub const ALACRITTY_CONFIG: &'static str = "alacritty.yml";

/// File name of the color scheme collection.
pub const ALACRITTY_COLOR_SCHEMES: &'static str = "alacritty_color_schemes.yml";

/// Failure to find or read the configuration files.
#[derive(Debug)]
pub enum Error {
    MissingAlacrittyYaml,
    MissingColorSchemes,
    InvalidColorScheme(String),
    ReadHomeVarError,
    DuplicateConfigFiles,
    CurrentSchemeError,
}

/// The main configuration file and its text.
pub struct AlacrittyConfig {
    pub path: std::path::PathBuf,
    pub data: String,
}

/// The color scheme collection file and its text.
pub struct AlacrittyColorSchemes {
    pub path: std::path::PathBuf,
    pub data: String,
}

/// One named scheme: its name and its block in the collection.
pub struct ColorScheme {
    name: String,
    data: String,
}

impl ColorScheme {
    pub fn new(name: String, data: String) -> (r: Self)
        ensures
            r.name() == name@,
            r.data() == data@,
    {
        ColorScheme { name, data }
    }

    /// The scheme's name.
    pub closed spec fn name(&self) -> Seq<char> {
        self.name@
    }

    /// The scheme's block as it stands in the collection.
    pub closed spec fn data(&self) -> Seq<char> {
        self.data@
    }
}

/// The configuration text after switching to the scheme `name` with block
/// `block`: the block, renamed to `scheme:`, takes the place of the current
/// scheme block, and the colors line then refers to `name`.
pub open spec fn switched(config: Seq<char>, name: Seq<char>, block: Seq<char>) -> Seq<char> {
    let renamed = replace_first(name + seq![':'], block, SCHEME_HEADER@);
    let placed = replace_first(SCHEME_BLOCK_PATTERN@, config, renamed);
    replace_first(COLORS_PATTERN@, placed, COLORS_PREFIX@ + name)
}

/// Header that a chosen scheme's block gets in the configuration.
pub const SCHEME_HEADER: &'static str = "scheme:";

/// Start of the colors line, before the referenced scheme's name.
pub const COLORS_PREFIX: &'static str = "colors: *";

impl AlacrittyConfig {
    /// Name of the scheme that the configuration declares as current.
    pub fn get_current_scheme_name(&self) -> (r: Result<String, Error>)
        ensures
            ({
                let found = leftmost_match(CURRENT_SCHEME_PATTERN@, self.data@);
                &&& r is Ok <==> (compiles(CURRENT_SCHEME_PATTERN@) && found is Some)
                &&& (r matches Ok(name) ==> name@ == strip_leading(
                    found.unwrap(),
                    CURRENT_SCHEME_PREFIX@,
                ))
                &&& (r is Err ==> (r matches Err(Error::CurrentSchemeError)))
            }),
    {
        let re = match Pattern::new(CURRENT_SCHEME_PATTERN) {
            Some(p) => p,
            None => return Err(Error::CurrentSchemeError),
        };
        match find_first(&re, self.data.as_str()) {
            Some(m) => {
                proof {
                    reveal_strlit("scheme: &");
                }
                Ok(trim_leading(m.as_str(), CURRENT_SCHEME_PREFIX))
            },
            None => Err(Error::CurrentSchemeError),
        }
    }

    /// Switches the configuration's text to `scheme`. Where a pattern does
    /// not compile the text is left as it was.
    pub fn set_scheme(&mut self, scheme: &ColorScheme)
        ensures
            final(self).path == old(self).path,
            compiles(SCHEME_BLOCK_PATTERN@) && compiles(scheme.name() + seq![':']) && compiles(
                COLORS_PATTERN@,
            ) ==> final(self).data@ == switched(old(self).data@, scheme.name(), scheme.data()),
            !(compiles(SCHEME_BLOCK_PATTERN@) && compiles(scheme.name() + seq![':']) && compiles(
                COLORS_PATTERN@,
            )) ==> final(self).data@ == old(self).data@,
    {
        proof {
            reveal_strlit(":");
        }
        let mut name_pattern = String::from_str(scheme.name.as_str());
        name_pattern.append(":");
        assert(name_pattern@ =~= scheme.name() + seq![':']);
        let re_scheme = match Pattern::new(SCHEME_BLOCK_PATTERN) {
            Some(p) => p,
            None => return ,
        };
        let re_name = match Pattern::new(name_pattern.as_str()) {
            Some(p) => p,
            None => return ,
        };
        let re_color = match Pattern::new(COLORS_PATTERN) {
            Some(p) => p,
            None => return ,
        };
        let renamed = replace(&re_name, scheme.data.as_str(), SCHEME_HEADER);
        let placed = replace(&re_scheme, self.data.as_str(), renamed.as_str());
        let mut colors = String::from_str(COLORS_PREFIX);
        colors.append(scheme.name.as_str());
        self.data = replace(&re_color, placed.as_str(), colors.as_str());
    }
}

impl AlacrittyColorSchemes {
    /// Names of the schemes that the collection defines, in order: each
    /// anchor without its `&`.
    pub fn get_available_schemes(&self) -> (r: Vec<String>)
        ensures
            compiles(ANCHOR_PATTERN@) ==> texts_of(r@) == all_matches(
                ANCHOR_PATTERN@,
                self.data@,
            ).map_values(|m: Seq<char>| strip_leading(m, seq!['&'])),
            !compiles(ANCHOR_PATTERN@) ==> r@.len() == 0,
    {
        let re = match Pattern::new(ANCHOR_PATTERN) {
            Some(p) => p,
            None => return Vec::new(),
        };
        let found = find_all(&re, self.data.as_str());
        let ghost anchors = all_matches(ANCHOR_PATTERN@, self.data@);
        let mut names: Vec<String> = Vec::new();
        let mut i: usize = 0;
        while i < found.len()
            invariant
                i <= found.len(),
                texts_of(found@) == anchors,
                names@.len() == i,
                forall|j: int|
                    0 <= j < i ==> #[trigger] names@[j]@ == strip_leading(anchors[j], seq!['&']),
            decreases found.len() - i,
        {
            proof {
                reveal_strlit("&");
            }
            assert("&"@ =~= seq!['&']);
            assert(found@[i as int]@ == anchors[i as int]);
            names.push(trim_leading(found[i].as_str(), "&"));
            i = i + 1;
        }
        assert(texts_of(names@) =~= anchors.map_values(
            |m: Seq<char>| strip_leading(m, seq!['&']),
        ));
        names
    }

    /// The scheme called `name`: its header line and indented lines.
    pub fn get_scheme(&self, name: &str) -> (r: Result<ColorScheme, Error>)
        ensures
            ({
                let pattern = name@ + SCHEME_BODY_PATTERN@;
                let found = leftmost_match(pattern, self.data@);
                &&& r is Ok <==> (compiles(pattern) && found is Some)
                &&& (r matches Ok(cs) ==> cs.name() == name@ && cs.data() == found.unwrap())
                &&& (r is Err ==> (r matches Err(Error::InvalidColorScheme(n)) && n@ == name@))
            }),
    {
        let mut pattern = String::from_str(name);
        pattern.append(SCHEME_BODY_PATTERN);
        let re = match Pattern::new(pattern.as_str()) {
            Some(p) => p,
            None => return Err(Error::InvalidColorScheme(String::from_str(name))),
        };
        match find_first(&re, self.data.as_str()) {
            Some(m) => Ok(ColorScheme::new(String::from_str(name), m)),
            None => Err(Error::InvalidColorScheme(String::from_str(name))),
        }
    }
}

/// `path` with its leading `$NAME` replaced by the directory `home`.
pub fn expand_config_path(path: &str, home: &str) -> (r: String)
    ensures
        compiles(HOME_VAR_PATTERN@) ==> r@ == replace_first(HOME_VAR_PATTERN@, path@, home@),
        !compiles(HOME_VAR_PATTERN@) ==> r@ == path@,
{
    match Pattern::new(HOME_VAR_PATTERN) {
        Some(re) => replace(&re, path, home),
        None => String::from_str(path),
    }
}

/// `pat` occurs in `text` as a contiguous run of characters.
pub open spec fn occurs_in(text: Seq<char>, pat: Seq<char>) -> bool {
    exists|i: int| 0 <= i <= text.len() - pat.len() && #[trigger] text.subrange(i, i + pat.len()) == pat
}

/// Whether `pat` is a substring of `text`.
fn contains(text: &str, pat: &str) -> (r: bool)
    ensures
        r == occurs_in(text@, pat@),
{
    let n = text.unicode_len();
    let k = pat.unicode_len();
    if k > n {
        return false;
    }
    if k == 0 {
        assert(text@.subrange(0, 0 + pat@.len() as int) =~= pat@);
        return true;
    }
    let mut at: usize = 0;
    while at <= n - k
        invariant
            n == text@.len(),
            k == pat@.len(),
            0 < k <= n,
            at <= n - k + 1,
            forall|i: int| 0 <= i < at ==> #[trigger] text@.subrange(i, i + k) != pat@,
        decreases n - k + 1 - at,
    {
        if starts_at(text, pat, at) {
            assert(text@.subrange(at as int, at + pat@.len()) == pat@);
            return true;
        }
        at = at + 1;
    }
    false
}

/// Index of the first path at or after `from` that names `file`, if any.
pub open spec fn first_naming(paths: Seq<Seq<char>>, file: Seq<char>, from: int) -> Option<int>
    decreases paths.len() - from,
{
    if from < 0 || from >= paths.len() {
        None
    } else if occurs_in(paths[from], file) {
        Some(from)
    } else {
        first_naming(paths, file, from + 1)
    }
}

/// The text of each path.
pub open spec fn texts_of(paths: Seq<String>) -> Seq<Seq<char>> {
    paths.map_values(|p: String| p@)
}

proof fn lemma_first_naming_in_range(paths: Seq<Seq<char>>, file: Seq<char>, from: int)
    ensures
        first_naming(paths, file, from) matches Some(i) ==> 0 <= i < paths.len() && occurs_in(
            paths[i],
            file,
        ),
    decreases paths.len() - from,
{
    if 0 <= from < paths.len() && !occurs_in(paths[from], file) {
        lemma_first_naming_in_range(paths, file, from + 1);
    }
}

/// Index of the first of `paths` that names `file`.
fn find_naming(paths: &Vec<String>, file: &str) -> (r: Option<usize>)
    ensures
        r matches Some(i) ==> Some(i as int) == first_naming(texts_of(paths@), file@, 0),
        r is None ==> first_naming(texts_of(paths@), file@, 0) is None,
{
    let ghost texts = texts_of(paths@);
    let mut i: usize = 0;
    while i < paths.len()
        invariant
            i <= paths.len(),
            texts == texts_of(paths@),
            first_naming(texts, file@, 0) == first_naming(texts, file@, i as int),
        decreases paths.len() - i,
    {
        assert(texts[i as int] == paths@[i as int]@);
        if contains(paths[i].as_str(), file) {
            return Some(i);
        }
        i = i + 1;
    }
    None
}

/// Picks the main configuration and the scheme collection among the files
/// that exist, `(config, schemes)`. More than two files means duplicates;
/// otherwise the scheme collection is looked for first, then the main
/// configuration, each as the first path that holds its file name.
pub fn locate_configs(paths: &Vec<String>) -> (r: Result<(String, String), Error>)
    ensures
        ({
            let texts = texts_of(paths@);
            let c = first_naming(texts, ALACRITTY_CONFIG@, 0);
            let s = first_naming(texts, ALACRITTY_COLOR_SCHEMES@, 0);
            &&& paths.len() > 2 <==> (r matches Err(Error::DuplicateConfigFiles))
            &&& (paths.len() <= 2 && s is None) <==> (r matches Err(Error::MissingColorSchemes))
            &&& (paths.len() <= 2 && s is Some && c is None) <==> (r matches Err(
                Error::MissingAlacrittyYaml,
            ))
            &&& r is Ok <==> (paths.len() <= 2 && s is Some && c is Some)
            &&& r matches Ok((config, schemes)) ==> {
                &&& config@ == texts[c.unwrap()]
                &&& schemes@ == texts[s.unwrap()]
            }
        }),
{
    if paths.len() > 2 {
        return Err(Error::DuplicateConfigFiles);
    }
    let schemes = match find_naming(paths, ALACRITTY_COLOR_SCHEMES) {
        Some(i) => i,
        None => return Err(Error::MissingColorSchemes),
    };
    let config = match find_naming(paths, ALACRITTY_CONFIG) {
        Some(i) => i,
        None => return Err(Error::MissingAlacrittyYaml),
    };
    proof {
        lemma_first_naming_in_range(texts_of(paths@), ALACRITTY_CONFIG@, 0);
        lemma_first_naming_in_range(texts_of(paths@), ALACRITTY_COLOR_SCHEMES@, 0);
    }
    Ok((paths[config].clone(), paths[schemes].clone()))
}

} // verus!
