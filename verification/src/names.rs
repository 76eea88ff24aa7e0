use vstd::prelude::*;

use crate::cochleagram::{DownsamplingMode, EnvelopeMode};
use crate::common::{
    BarkConversionApproach, ErbConversionApproach, MelConversionApproach, Normalization, Scale,
    SpafeError, WindowType,
};

verus! {

/// ASCII lowercase of one character; other characters are unchanged.
pub open spec fn ascii_lower(c: char) -> char {
    if 'A' <= c && c <= 'Z' {
        ((c as int) + 32) as char
    } else {
        c
    }
}

/// ASCII lowercase of a whole string, character by character.
pub open spec fn ascii_lowercase(s: Seq<char>) -> Seq<char> {
    s.map_values(|c: char| ascii_lower(c))
}

/// Lowercasing twice is lowercasing once, so a name that is already
/// lowercase parses as itself.
pub proof fn lemma_ascii_lowercase_idempotent(s: Seq<char>)
    ensures
        ascii_lowercase(ascii_lowercase(s)) == ascii_lowercase(s),
{
    assert(ascii_lowercase(ascii_lowercase(s)) =~= ascii_lowercase(s));
}

/// Lowercase one ASCII letter.
pub fn lower_char(c: char) -> (r: char)
    ensures
        r == ascii_lower(c),
{
    if 'A' <= c && c <= 'Z' {
        let code: u32 = c as u32;
        assert(65 <= code <= 90);
        let lowered: u8 = (code + 32) as u8;
        lowered as char
    } else {
        c
    }
}

/// Whether `value`, lowercased in ASCII, is exactly `name`.
pub fn matches_lowercase(value: &str, name: &str) -> (r: bool)
    ensures
        r == (ascii_lowercase(value@) == name@),
{
    let n = value.unicode_len();
    let m = name.unicode_len();
    if n != m {
        assert(ascii_lowercase(value@).len() != name@.len());
        return false;
    }
    let mut i: usize = 0;
    while i < n
        invariant
            n == value@.len(),
            m == name@.len(),
            n == m,
            i <= n,
            forall|j: int| 0 <= j < i ==> ascii_lower(#[trigger] value@[j]) == name@[j],
        decreases n - i,
    {
        let a = lower_char(value.get_char(i));
        let b = name.get_char(i);
        if a != b {
            assert(ascii_lowercase(value@)[i as int] != name@[i as int]);
            return false;
        }
        i = i + 1;
    }
    assert(ascii_lowercase(value@) =~= name@);
    true
}

/// Whether two strings hold the same characters.
pub fn same_text(a: &str, b: &str) -> (r: bool)
    ensures
        r == (a@ == b@),
{
    let n = a.unicode_len();
    if n != b.unicode_len() {
        return false;
    }
    let mut i: usize = 0;
    while i < n
        invariant
            n == a@.len(),
            n == b@.len(),
            i <= n,
            forall|j: int| 0 <= j < i ==> #[trigger] a@[j] == b@[j],
        decreases n - i,
    {
        if a.get_char(i) != b.get_char(i) {
            assert(a@[i as int] != b@[i as int]);
            return false;
        }
        i = i + 1;
    }
    assert(a@ =~= b@);
    true
}

/// The message of a rejected scale name.
pub const SCALE_NAME_ERROR: &'static str = "scale must be 'constant', 'ascendant', or 'descendant'";

/// The message of a rejected window name.
pub const WINDOW_NAME_ERROR: &'static str =
    "win_type must be 'hamming', 'hanning', 'bartlet', 'kaiser', or 'blackman'";

/// The message of a rejected normalization name.
pub const NORMALIZATION_NAME_ERROR: &'static str =
    "normalize must be None, 'mean_variance', 'mean_subtraction', 'variance', or 'mean'";

/// The message of a rejected Mel conversion name.
pub const MEL_NAME_ERROR: &'static str = "mel conversion must be 'oshaghnessy' or 'lindsay'";

/// The message of a rejected Bark conversion name.
pub const BARK_NAME_ERROR: &'static str =
    "bark conversion must be 'wang', 'tjomov', 'schroeder', 'terhardt', 'zwicker', or 'traunmueller'";

/// The message of a rejected ERB conversion name.
pub const ERB_NAME_ERROR: &'static str = "erb conversion must be 'glasberg'";

/// The scale that a lowercased name denotes.
pub open spec fn scale_named(name: Seq<char>) -> Option<Scale> {
    if name == "ascendant"@ || name == "asc"@ {
        Some(Scale::Ascendant)
    } else if name == "descendant"@ || name == "desc"@ {
        Some(Scale::Descendant)
    } else if name == "constant"@ || name == "const"@ {
        Some(Scale::Constant)
    } else {
        None
    }
}

/// The names of each scale that the error message lists, with their short forms.
pub open spec fn scale_called(value: Scale, name: Seq<char>) -> bool {
    match value {
        Scale::Ascendant => name == "ascendant"@ || name == "asc"@,
        Scale::Descendant => name == "descendant"@ || name == "desc"@,
        Scale::Constant => name == "constant"@ || name == "const"@,
    }
}

/// Every listed name of a scale value, in any ASCII case, parses to that value.
pub proof fn lemma_scale_names_parse(s: Seq<char>)
    ensures
        forall|v: Scale| #[trigger] scale_called(v, ascii_lowercase(s)) ==> scale_named(ascii_lowercase(s)) == Some(v),
{
    reveal_strlit("ascendant");
    reveal_strlit("asc");
    reveal_strlit("descendant");
    reveal_strlit("desc");
    reveal_strlit("constant");
    reveal_strlit("const");
    assert("ascendant"@.len() != "asc"@.len());
    assert("ascendant"@ != "asc"@);
    assert("ascendant"@.len() != "descendant"@.len());
    assert("ascendant"@ != "descendant"@);
    assert("ascendant"@.len() != "desc"@.len());
    assert("ascendant"@ != "desc"@);
    assert("ascendant"@.len() != "constant"@.len());
    assert("ascendant"@ != "constant"@);
    assert("ascendant"@.len() != "const"@.len());
    assert("ascendant"@ != "const"@);
    assert("asc"@.len() != "descendant"@.len());
    assert("asc"@ != "descendant"@);
    assert("asc"@.len() != "desc"@.len());
    assert("asc"@ != "desc"@);
    assert("asc"@.len() != "constant"@.len());
    assert("asc"@ != "constant"@);
    assert("asc"@.len() != "const"@.len());
    assert("asc"@ != "const"@);
    assert("descendant"@.len() != "desc"@.len());
    assert("descendant"@ != "desc"@);
    assert("descendant"@.len() != "constant"@.len());
    assert("descendant"@ != "constant"@);
    assert("descendant"@.len() != "const"@.len());
    assert("descendant"@ != "const"@);
    assert("desc"@.len() != "constant"@.len());
    assert("desc"@ != "constant"@);
    assert("desc"@.len() != "const"@.len());
    assert("desc"@ != "const"@);
    assert("constant"@.len() != "const"@.len());
    assert("constant"@ != "const"@);
}

/// Parse a scale name, ignoring ASCII case.
pub fn parse_scale(value: &str) -> (r: Result<Scale, SpafeError>)
    ensures
        match scale_named(ascii_lowercase(value@)) {
            Some(s) => r == Ok::<Scale, SpafeError>(s),
            None => r == Err::<Scale, SpafeError>(SpafeError::InvalidParameter(SCALE_NAME_ERROR)),
        },
        forall|v: Scale| #[trigger] scale_called(v, ascii_lowercase(value@)) ==> r == Ok::<Scale, SpafeError>(v),
{
    proof {
        lemma_scale_names_parse(value@);
    }
    if matches_lowercase(value, "ascendant") || matches_lowercase(value, "asc") {
        Ok(Scale::Ascendant)
    } else if matches_lowercase(value, "descendant") || matches_lowercase(value, "desc") {
        Ok(Scale::Descendant)
    } else if matches_lowercase(value, "constant") || matches_lowercase(value, "const") {
        Ok(Scale::Constant)
    } else {
        Err(SpafeError::InvalidParameter(SCALE_NAME_ERROR))
    }
}

/// The window function that a lowercased name denotes.
pub open spec fn window_named(name: Seq<char>) -> Option<WindowType> {
    if name == "hanning"@ || name == "hann"@ {
        Some(WindowType::Hanning)
    } else if name == "bartlet"@ || name == "bartlett"@ {
        Some(WindowType::Bartlet)
    } else if name == "kaiser"@ {
        Some(WindowType::Kaiser)
    } else if name == "blackman"@ {
        Some(WindowType::Blackman)
    } else if name == "hamming"@ {
        Some(WindowType::Hamming)
    } else {
        None
    }
}

/// The names of each window function, with their alternative spellings.
pub open spec fn window_called(value: WindowType, name: Seq<char>) -> bool {
    match value {
        WindowType::Hanning => name == "hanning"@ || name == "hann"@,
        WindowType::Bartlet => name == "bartlet"@ || name == "bartlett"@,
        WindowType::Kaiser => name == "kaiser"@,
        WindowType::Blackman => name == "blackman"@,
        WindowType::Hamming => name == "hamming"@,
    }
}

/// Every listed name of a window value, in any ASCII case, parses to that value.
pub proof fn lemma_window_names_parse(s: Seq<char>)
    ensures
        forall|v: WindowType| #[trigger] window_called(v, ascii_lowercase(s)) ==> window_named(ascii_lowercase(s)) == Some(v),
{
    reveal_strlit("hanning");
    reveal_strlit("hann");
    reveal_strlit("bartlet");
    reveal_strlit("bartlett");
    reveal_strlit("kaiser");
    reveal_strlit("blackman");
    reveal_strlit("hamming");
    assert("hanning"@.len() != "hann"@.len());
    assert("hanning"@ != "hann"@);
    assert("hanning"@[0] != "bartlet"@[0]);
    assert("hanning"@ != "bartlet"@);
    assert("hanning"@.len() != "bartlett"@.len());
    assert("hanning"@ != "bartlett"@);
    assert("hanning"@.len() != "kaiser"@.len());
    assert("hanning"@ != "kaiser"@);
    assert("hanning"@.len() != "blackman"@.len());
    assert("hanning"@ != "blackman"@);
    assert("hanning"@[2] != "hamming"@[2]);
    assert("hanning"@ != "hamming"@);
    assert("hann"@.len() != "bartlet"@.len());
    assert("hann"@ != "bartlet"@);
    assert("hann"@.len() != "bartlett"@.len());
    assert("hann"@ != "bartlett"@);
    assert("hann"@.len() != "kaiser"@.len());
    assert("hann"@ != "kaiser"@);
    assert("hann"@.len() != "blackman"@.len());
    assert("hann"@ != "blackman"@);
    assert("hann"@.len() != "hamming"@.len());
    assert("hann"@ != "hamming"@);
    assert("bartlet"@.len() != "bartlett"@.len());
    assert("bartlet"@ != "bartlett"@);
    assert("bartlet"@.len() != "kaiser"@.len());
    assert("bartlet"@ != "kaiser"@);
    assert("bartlet"@.len() != "blackman"@.len());
    assert("bartlet"@ != "blackman"@);
    assert("bartlet"@[0] != "hamming"@[0]);
    assert("bartlet"@ != "hamming"@);
    assert("bartlett"@.len() != "kaiser"@.len());
    assert("bartlett"@ != "kaiser"@);
    assert("bartlett"@[1] != "blackman"@[1]);
    assert("bartlett"@ != "blackman"@);
    assert("bartlett"@.len() != "hamming"@.len());
    assert("bartlett"@ != "hamming"@);
    assert("kaiser"@.len() != "blackman"@.len());
    assert("kaiser"@ != "blackman"@);
    assert("kaiser"@.len() != "hamming"@.len());
    assert("kaiser"@ != "hamming"@);
    assert("blackman"@.len() != "hamming"@.len());
    assert("blackman"@ != "hamming"@);
}

/// Parse a window function name, ignoring ASCII case.
pub fn parse_window_type(value: &str) -> (r: Result<WindowType, SpafeError>)
    ensures
        match window_named(ascii_lowercase(value@)) {
            Some(w) => r == Ok::<WindowType, SpafeError>(w),
            None => r == Err::<WindowType, SpafeError>(
                SpafeError::InvalidParameter(WINDOW_NAME_ERROR),
            ),
        },
        forall|v: WindowType| #[trigger] window_called(v, ascii_lowercase(value@)) ==> r == Ok::<WindowType, SpafeError>(v),
{
    proof {
        lemma_window_names_parse(value@);
    }
    if matches_lowercase(value, "hanning") || matches_lowercase(value, "hann") {
        Ok(WindowType::Hanning)
    } else if matches_lowercase(value, "bartlet") || matches_lowercase(value, "bartlett") {
        Ok(WindowType::Bartlet)
    } else if matches_lowercase(value, "kaiser") {
        Ok(WindowType::Kaiser)
    } else if matches_lowercase(value, "blackman") {
        Ok(WindowType::Blackman)
    } else if matches_lowercase(value, "hamming") {
        Ok(WindowType::Hamming)
    } else {
        Err(SpafeError::InvalidParameter(WINDOW_NAME_ERROR))
    }
}

/// The normalization that a lowercased name denotes: `Some(None)` for "none",
/// `None` for a name that denotes nothing.
pub open spec fn normalization_named(name: Seq<char>) -> Option<Option<Normalization>> {
    if name == "none"@ {
        Some(None)
    } else if name == "mean_variance"@ || name == "mvn"@ {
        Some(Some(Normalization::MeanVariance))
    } else if name == "mean_subtraction"@ || name == "ms"@ {
        Some(Some(Normalization::MeanSubtraction))
    } else if name == "variance"@ || name == "var"@ {
        Some(Some(Normalization::Variance))
    } else if name == "mean"@ {
        Some(Some(Normalization::Mean))
    } else {
        None
    }
}

/// The names of each normalization mode (and of none), with their short forms.
pub open spec fn normalization_called(value: Option<Normalization>, name: Seq<char>) -> bool {
    match value {
        None => name == "none"@,
        Some(Normalization::MeanVariance) => name == "mean_variance"@ || name == "mvn"@,
        Some(Normalization::MeanSubtraction) => name == "mean_subtraction"@ || name == "ms"@,
        Some(Normalization::Variance) => name == "variance"@ || name == "var"@,
        Some(Normalization::Mean) => name == "mean"@,
    }
}

/// Every listed name of a normalization choice, in any ASCII case, parses to that choice.
pub proof fn lemma_normalization_names_parse(s: Seq<char>)
    ensures
        forall|v: Option<Normalization>| #[trigger] normalization_called(v, ascii_lowercase(s)) ==> normalization_named(ascii_lowercase(s)) == Some(v),
{
    reveal_strlit("none");
    reveal_strlit("mean_variance");
    reveal_strlit("mvn");
    reveal_strlit("mean_subtraction");
    reveal_strlit("ms");
    reveal_strlit("variance");
    reveal_strlit("var");
    reveal_strlit("mean");
    assert("none"@.len() != "mean_variance"@.len());
    assert("none"@ != "mean_variance"@);
    assert("none"@.len() != "mvn"@.len());
    assert("none"@ != "mvn"@);
    assert("none"@.len() != "mean_subtraction"@.len());
    assert("none"@ != "mean_subtraction"@);
    assert("none"@.len() != "ms"@.len());
    assert("none"@ != "ms"@);
    assert("none"@.len() != "variance"@.len());
    assert("none"@ != "variance"@);
    assert("none"@.len() != "var"@.len());
    assert("none"@ != "var"@);
    assert("none"@[0] != "mean"@[0]);
    assert("none"@ != "mean"@);
    assert("mean_variance"@.len() != "mvn"@.len());
    assert("mean_variance"@ != "mvn"@);
    assert("mean_variance"@.len() != "mean_subtraction"@.len());
    assert("mean_variance"@ != "mean_subtraction"@);
    assert("mean_variance"@.len() != "ms"@.len());
    assert("mean_variance"@ != "ms"@);
    assert("mean_variance"@.len() != "variance"@.len());
    assert("mean_variance"@ != "variance"@);
    assert("mean_variance"@.len() != "var"@.len());
    assert("mean_variance"@ != "var"@);
    assert("mean_variance"@.len() != "mean"@.len());
    assert("mean_variance"@ != "mean"@);
    assert("mvn"@.len() != "mean_subtraction"@.len());
    assert("mvn"@ != "mean_subtraction"@);
    assert("mvn"@.len() != "ms"@.len());
    assert("mvn"@ != "ms"@);
    assert("mvn"@.len() != "variance"@.len());
    assert("mvn"@ != "variance"@);
    assert("mvn"@[0] != "var"@[0]);
    assert("mvn"@ != "var"@);
    assert("mvn"@.len() != "mean"@.len());
    assert("mvn"@ != "mean"@);
    assert("mean_subtraction"@.len() != "ms"@.len());
    assert("mean_subtraction"@ != "ms"@);
    assert("mean_subtraction"@.len() != "variance"@.len());
    assert("mean_subtraction"@ != "variance"@);
    assert("mean_subtraction"@.len() != "var"@.len());
    assert("mean_subtraction"@ != "var"@);
    assert("mean_subtraction"@.len() != "mean"@.len());
    assert("mean_subtraction"@ != "mean"@);
    assert("ms"@.len() != "variance"@.len());
    assert("ms"@ != "variance"@);
    assert("ms"@.len() != "var"@.len());
    assert("ms"@ != "var"@);
    assert("ms"@.len() != "mean"@.len());
    assert("ms"@ != "mean"@);
    assert("variance"@.len() != "var"@.len());
    assert("variance"@ != "var"@);
    assert("variance"@.len() != "mean"@.len());
    assert("variance"@ != "mean"@);
    assert("var"@.len() != "mean"@.len());
    assert("var"@ != "mean"@);
}

/// Parse an optional normalization name, ignoring ASCII case; no name and
/// "none" both mean no normalization.
pub fn parse_normalization(value: Option<&str>) -> (r: Result<Option<Normalization>, SpafeError>)
    ensures
        match value {
            None => r == Ok::<Option<Normalization>, SpafeError>(None),
            Some(v) => match normalization_named(ascii_lowercase(v@)) {
                Some(n) => r == Ok::<Option<Normalization>, SpafeError>(n),
                None => r == Err::<Option<Normalization>, SpafeError>(
                    SpafeError::InvalidParameter(NORMALIZATION_NAME_ERROR),
                ),
            },
        },
        forall|v: Option<Normalization>| value is Some && #[trigger] normalization_called(v, ascii_lowercase(value.unwrap()@)) ==> r == Ok::<Option<Normalization>, SpafeError>(v),
{
    proof {
        if let Some(name) = value {
            lemma_normalization_names_parse(name@);
        }
    }
    match value {
        None => Ok(None),
        Some(v) => {
            if matches_lowercase(v, "none") {
                Ok(None)
            } else if matches_lowercase(v, "mean_variance") || matches_lowercase(v, "mvn") {
                Ok(Some(Normalization::MeanVariance))
            } else if matches_lowercase(v, "mean_subtraction") || matches_lowercase(v, "ms") {
                Ok(Some(Normalization::MeanSubtraction))
            } else if matches_lowercase(v, "variance") || matches_lowercase(v, "var") {
                Ok(Some(Normalization::Variance))
            } else if matches_lowercase(v, "mean") {
                Ok(Some(Normalization::Mean))
            } else {
                Err(SpafeError::InvalidParameter(NORMALIZATION_NAME_ERROR))
            }
        },
    }
}

/// The Mel conversion that a lowercased name denotes.
pub open spec fn mel_named(name: Seq<char>) -> Option<MelConversionApproach> {
    if name == "oshaghnessy"@ || name == "oshaughnessy"@ || name == "slaney"@ {
        Some(MelConversionApproach::Oshaghnessy)
    } else if name == "lindsay"@ {
        Some(MelConversionApproach::Lindsay)
    } else {
        None
    }
}

/// The names of each Mel conversion formula, with their alternative spellings.
pub open spec fn mel_called(value: MelConversionApproach, name: Seq<char>) -> bool {
    match value {
        MelConversionApproach::Oshaghnessy => name == "oshaghnessy"@ || name == "oshaughnessy"@ || name == "slaney"@,
        MelConversionApproach::Lindsay => name == "lindsay"@,
    }
}

/// Every listed name of a mel value, in any ASCII case, parses to that value.
pub proof fn lemma_mel_names_parse(s: Seq<char>)
    ensures
        forall|v: MelConversionApproach| #[trigger] mel_called(v, ascii_lowercase(s)) ==> mel_named(ascii_lowercase(s)) == Some(v),
{
    reveal_strlit("oshaghnessy");
    reveal_strlit("oshaughnessy");
    reveal_strlit("slaney");
    reveal_strlit("lindsay");
    assert("oshaghnessy"@.len() != "oshaughnessy"@.len());
    assert("oshaghnessy"@ != "oshaughnessy"@);
    assert("oshaghnessy"@.len() != "slaney"@.len());
    assert("oshaghnessy"@ != "slaney"@);
    assert("oshaghnessy"@.len() != "lindsay"@.len());
    assert("oshaghnessy"@ != "lindsay"@);
    assert("oshaughnessy"@.len() != "slaney"@.len());
    assert("oshaughnessy"@ != "slaney"@);
    assert("oshaughnessy"@.len() != "lindsay"@.len());
    assert("oshaughnessy"@ != "lindsay"@);
    assert("slaney"@.len() != "lindsay"@.len());
    assert("slaney"@ != "lindsay"@);
}

/// Parse a Mel conversion name, ignoring ASCII case.
pub fn parse_mel(value: &str) -> (r: Result<MelConversionApproach, SpafeError>)
    ensures
        match mel_named(ascii_lowercase(value@)) {
            Some(a) => r == Ok::<MelConversionApproach, SpafeError>(a),
            None => r == Err::<MelConversionApproach, SpafeError>(
                SpafeError::InvalidParameter(MEL_NAME_ERROR),
            ),
        },
        forall|v: MelConversionApproach| #[trigger] mel_called(v, ascii_lowercase(value@)) ==> r == Ok::<MelConversionApproach, SpafeError>(v),
{
    proof {
        lemma_mel_names_parse(value@);
    }
    if matches_lowercase(value, "oshaghnessy") || matches_lowercase(value, "oshaughnessy")
        || matches_lowercase(value, "slaney") {
        Ok(MelConversionApproach::Oshaghnessy)
    } else if matches_lowercase(value, "lindsay") {
        Ok(MelConversionApproach::Lindsay)
    } else {
        Err(SpafeError::InvalidParameter(MEL_NAME_ERROR))
    }
}

/// The Bark conversion that a lowercased name denotes.
pub open spec fn bark_named(name: Seq<char>) -> Option<BarkConversionApproach> {
    if name == "wang"@ {
        Some(BarkConversionApproach::Wang)
    } else if name == "tjomov"@ {
        Some(BarkConversionApproach::Tjomov)
    } else if name == "schroeder"@ {
        Some(BarkConversionApproach::Schroeder)
    } else if name == "terhardt"@ {
        Some(BarkConversionApproach::Terhardt)
    } else if name == "zwicker"@ {
        Some(BarkConversionApproach::Zwicker)
    } else if name == "traunmueller"@ || name == "traunmuller"@ {
        Some(BarkConversionApproach::Traunmueller)
    } else {
        None
    }
}

/// The names of each Bark conversion formula, with their alternative spellings.
pub open spec fn bark_called(value: BarkConversionApproach, name: Seq<char>) -> bool {
    match value {
        BarkConversionApproach::Wang => name == "wang"@,
        BarkConversionApproach::Tjomov => name == "tjomov"@,
        BarkConversionApproach::Schroeder => name == "schroeder"@,
        BarkConversionApproach::Terhardt => name == "terhardt"@,
        BarkConversionApproach::Zwicker => name == "zwicker"@,
        BarkConversionApproach::Traunmueller => name == "traunmueller"@ || name == "traunmuller"@,
    }
}

/// Every listed name of a bark value, in any ASCII case, parses to that value.
pub proof fn lemma_bark_names_parse(s: Seq<char>)
    ensures
        forall|v: BarkConversionApproach| #[trigger] bark_called(v, ascii_lowercase(s)) ==> bark_named(ascii_lowercase(s)) == Some(v),
{
    reveal_strlit("wang");
    reveal_strlit("tjomov");
    reveal_strlit("schroeder");
    reveal_strlit("terhardt");
    reveal_strlit("zwicker");
    reveal_strlit("traunmueller");
    reveal_strlit("traunmuller");
    assert("wang"@.len() != "tjomov"@.len());
    assert("wang"@ != "tjomov"@);
    assert("wang"@.len() != "schroeder"@.len());
    assert("wang"@ != "schroeder"@);
    assert("wang"@.len() != "terhardt"@.len());
    assert("wang"@ != "terhardt"@);
    assert("wang"@.len() != "zwicker"@.len());
    assert("wang"@ != "zwicker"@);
    assert("wang"@.len() != "traunmueller"@.len());
    assert("wang"@ != "traunmueller"@);
    assert("wang"@.len() != "traunmuller"@.len());
    assert("wang"@ != "traunmuller"@);
    assert("tjomov"@.len() != "schroeder"@.len());
    assert("tjomov"@ != "schroeder"@);
    assert("tjomov"@.len() != "terhardt"@.len());
    assert("tjomov"@ != "terhardt"@);
    assert("tjomov"@.len() != "zwicker"@.len());
    assert("tjomov"@ != "zwicker"@);
    assert("tjomov"@.len() != "traunmueller"@.len());
    assert("tjomov"@ != "traunmueller"@);
    assert("tjomov"@.len() != "traunmuller"@.len());
    assert("tjomov"@ != "traunmuller"@);
    assert("schroeder"@.len() != "terhardt"@.len());
    assert("schroeder"@ != "terhardt"@);
    assert("schroeder"@.len() != "zwicker"@.len());
    assert("schroeder"@ != "zwicker"@);
    assert("schroeder"@.len() != "traunmueller"@.len());
    assert("schroeder"@ != "traunmueller"@);
    assert("schroeder"@.len() != "traunmuller"@.len());
    assert("schroeder"@ != "traunmuller"@);
    assert("terhardt"@.len() != "zwicker"@.len());
    assert("terhardt"@ != "zwicker"@);
    assert("terhardt"@.len() != "traunmueller"@.len());
    assert("terhardt"@ != "traunmueller"@);
    assert("terhardt"@.len() != "traunmuller"@.len());
    assert("terhardt"@ != "traunmuller"@);
    assert("zwicker"@.len() != "traunmueller"@.len());
    assert("zwicker"@ != "traunmueller"@);
    assert("zwicker"@.len() != "traunmuller"@.len());
    assert("zwicker"@ != "traunmuller"@);
    assert("traunmueller"@.len() != "traunmuller"@.len());
    assert("traunmueller"@ != "traunmuller"@);
}

/// Parse a Bark conversion name, ignoring ASCII case.
pub fn parse_bark(value: &str) -> (r: Result<BarkConversionApproach, SpafeError>)
    ensures
        match bark_named(ascii_lowercase(value@)) {
            Some(a) => r == Ok::<BarkConversionApproach, SpafeError>(a),
            None => r == Err::<BarkConversionApproach, SpafeError>(
                SpafeError::InvalidParameter(BARK_NAME_ERROR),
            ),
        },
        forall|v: BarkConversionApproach| #[trigger] bark_called(v, ascii_lowercase(value@)) ==> r == Ok::<BarkConversionApproach, SpafeError>(v),
{
    proof {
        lemma_bark_names_parse(value@);
    }
    if matches_lowercase(value, "wang") {
        Ok(BarkConversionApproach::Wang)
    } else if matches_lowercase(value, "tjomov") {
        Ok(BarkConversionApproach::Tjomov)
    } else if matches_lowercase(value, "schroeder") {
        Ok(BarkConversionApproach::Schroeder)
    } else if matches_lowercase(value, "terhardt") {
        Ok(BarkConversionApproach::Terhardt)
    } else if matches_lowercase(value, "zwicker") {
        Ok(BarkConversionApproach::Zwicker)
    } else if matches_lowercase(value, "traunmueller") || matches_lowercase(value, "traunmuller") {
        Ok(BarkConversionApproach::Traunmueller)
    } else {
        Err(SpafeError::InvalidParameter(BARK_NAME_ERROR))
    }
}

/// Parse an ERB conversion name, ignoring ASCII case.
pub fn parse_erb(value: &str) -> (r: Result<ErbConversionApproach, SpafeError>)
    ensures
        ascii_lowercase(value@) == "glasberg"@ ==> r == Ok::<ErbConversionApproach, SpafeError>(
            ErbConversionApproach::Glasberg,
        ),
        ascii_lowercase(value@) != "glasberg"@ ==> r == Err::<ErbConversionApproach, SpafeError>(
            SpafeError::InvalidParameter(ERB_NAME_ERROR),
        ),
{
    if matches_lowercase(value, "glasberg") {
        Ok(ErbConversionApproach::Glasberg)
    } else {
        Err(SpafeError::InvalidParameter(ERB_NAME_ERROR))
    }
}

/// The message of a rejected envelope name.
pub const ENVELOPE_NAME_ERROR: &'static str =
    "envelope must be 'hilbert', 'abs_subbands', or 'rectify_subbands'";

/// The message of a rejected downsampling name.
pub const DOWNSAMPLING_NAME_ERROR: &'static str = "downsampling must be 'sinc' or 'hann'";

/// The message of a rejected compression name.
pub const COMPRESSION_NAME_ERROR: &'static str =
    "compression must be None, 'linear', 'power', or 'clipped_grad_power'";

/// The envelope extraction that a lowercased name denotes.
pub open spec fn envelope_named(name: Seq<char>) -> Option<EnvelopeMode> {
    if name == "hilbert"@ {
        Some(EnvelopeMode::Hilbert)
    } else if name == "abs_subbands"@ || name == "abs"@ {
        Some(EnvelopeMode::AbsSubbands)
    } else if name == "rectify_subbands"@ || name == "rectify"@ {
        Some(EnvelopeMode::RectifySubbands)
    } else {
        None
    }
}

/// The names of each envelope mode, with their short forms.
pub open spec fn envelope_called(value: EnvelopeMode, name: Seq<char>) -> bool {
    match value {
        EnvelopeMode::Hilbert => name == "hilbert"@,
        EnvelopeMode::AbsSubbands => name == "abs_subbands"@ || name == "abs"@,
        EnvelopeMode::RectifySubbands => name == "rectify_subbands"@ || name == "rectify"@,
    }
}

/// Every listed name of a envelope value, in any ASCII case, parses to that value.
pub proof fn lemma_envelope_names_parse(s: Seq<char>)
    ensures
        forall|v: EnvelopeMode| #[trigger] envelope_called(v, ascii_lowercase(s)) ==> envelope_named(ascii_lowercase(s)) == Some(v),
{
    reveal_strlit("hilbert");
    reveal_strlit("abs_subbands");
    reveal_strlit("abs");
    reveal_strlit("rectify_subbands");
    reveal_strlit("rectify");
    assert("hilbert"@.len() != "abs_subbands"@.len());
    assert("hilbert"@ != "abs_subbands"@);
    assert("hilbert"@.len() != "abs"@.len());
    assert("hilbert"@ != "abs"@);
    assert("hilbert"@.len() != "rectify_subbands"@.len());
    assert("hilbert"@ != "rectify_subbands"@);
    assert("hilbert"@[0] != "rectify"@[0]);
    assert("hilbert"@ != "rectify"@);
    assert("abs_subbands"@.len() != "abs"@.len());
    assert("abs_subbands"@ != "abs"@);
    assert("abs_subbands"@.len() != "rectify_subbands"@.len());
    assert("abs_subbands"@ != "rectify_subbands"@);
    assert("abs_subbands"@.len() != "rectify"@.len());
    assert("abs_subbands"@ != "rectify"@);
    assert("abs"@.len() != "rectify_subbands"@.len());
    assert("abs"@ != "rectify_subbands"@);
    assert("abs"@.len() != "rectify"@.len());
    assert("abs"@ != "rectify"@);
    assert("rectify_subbands"@.len() != "rectify"@.len());
    assert("rectify_subbands"@ != "rectify"@);
}

/// Parse an envelope extraction name, ignoring ASCII case.
pub fn parse_envelope(value: &str) -> (r: Result<EnvelopeMode, SpafeError>)
    ensures
        match envelope_named(ascii_lowercase(value@)) {
            Some(e) => r == Ok::<EnvelopeMode, SpafeError>(e),
            None => r == Err::<EnvelopeMode, SpafeError>(
                SpafeError::InvalidParameter(ENVELOPE_NAME_ERROR),
            ),
        },
        forall|v: EnvelopeMode| #[trigger] envelope_called(v, ascii_lowercase(value@)) ==> r == Ok::<EnvelopeMode, SpafeError>(v),
{
    proof {
        lemma_envelope_names_parse(value@);
    }
    if matches_lowercase(value, "hilbert") {
        Ok(EnvelopeMode::Hilbert)
    } else if matches_lowercase(value, "abs_subbands") || matches_lowercase(value, "abs") {
        Ok(EnvelopeMode::AbsSubbands)
    } else if matches_lowercase(value, "rectify_subbands") || matches_lowercase(value, "rectify") {
        Ok(EnvelopeMode::RectifySubbands)
    } else {
        Err(SpafeError::InvalidParameter(ENVELOPE_NAME_ERROR))
    }
}

/// The downsampling that a lowercased name denotes, with a FIR window of
/// `window_size`: the sinc kernel without padding, or normalized Hann pooling
/// without padding.
pub open spec fn downsampling_named(name: Seq<char>, window_size: usize) -> Option<DownsamplingMode> {
    if name == "sinc"@ || name == "sinc_with_kaiser_window"@ {
        Some(DownsamplingMode::SincWithKaiserWindow { window_size, padding: None })
    } else if name == "hann"@ || name == "hann_pooling1d"@ {
        Some(DownsamplingMode::HannPooling1d { window_size, padding: 0, normalize: true })
    } else {
        None
    }
}

/// The names of each downsampling method, with the mode each gives for a window size.
pub open spec fn downsampling_called(value: DownsamplingMode, name: Seq<char>, window_size: usize) -> bool {
    match value {
        DownsamplingMode::SincWithKaiserWindow { window_size: w, padding } => w == window_size && padding
            is None && (name == "sinc"@ || name == "sinc_with_kaiser_window"@),
        DownsamplingMode::HannPooling1d { window_size: w, padding, normalize } => w == window_size
            && padding == 0 && normalize && (name == "hann"@ || name == "hann_pooling1d"@),
    }
}

/// Every listed name of a downsampling method, in any ASCII case, parses to
/// that method with the given window size.
pub proof fn lemma_downsampling_names_parse(s: Seq<char>, window_size: usize)
    ensures
        forall|v: DownsamplingMode| #[trigger] downsampling_called(v, ascii_lowercase(s), window_size)
            ==> downsampling_named(ascii_lowercase(s), window_size) == Some(v),
{
    reveal_strlit("sinc");
    reveal_strlit("sinc_with_kaiser_window");
    reveal_strlit("hann");
    reveal_strlit("hann_pooling1d");
    assert("sinc"@.len() != "sinc_with_kaiser_window"@.len());
    assert("sinc"@ != "sinc_with_kaiser_window"@);
    assert("sinc"@[0] != "hann"@[0]);
    assert("sinc"@ != "hann"@);
    assert("sinc"@.len() != "hann_pooling1d"@.len());
    assert("sinc"@ != "hann_pooling1d"@);
    assert("sinc_with_kaiser_window"@.len() != "hann"@.len());
    assert("sinc_with_kaiser_window"@ != "hann"@);
    assert("sinc_with_kaiser_window"@.len() != "hann_pooling1d"@.len());
    assert("sinc_with_kaiser_window"@ != "hann_pooling1d"@);
    assert("hann"@.len() != "hann_pooling1d"@.len());
    assert("hann"@ != "hann_pooling1d"@);
}

/// Parse a downsampling name, ignoring ASCII case.
pub fn parse_downsampling(value: &str, window_size: usize) -> (r: Result<DownsamplingMode, SpafeError>)
    ensures
        match downsampling_named(ascii_lowercase(value@), window_size) {
            Some(d) => r == Ok::<DownsamplingMode, SpafeError>(d),
            None => r == Err::<DownsamplingMode, SpafeError>(
                SpafeError::InvalidParameter(DOWNSAMPLING_NAME_ERROR),
            ),
        },
        forall|v: DownsamplingMode| #[trigger] downsampling_called(v, ascii_lowercase(value@), window_size) ==> r == Ok::<DownsamplingMode, SpafeError>(v),
{
    proof {
        lemma_downsampling_names_parse(value@, window_size);
    }
    if matches_lowercase(value, "sinc") || matches_lowercase(value, "sinc_with_kaiser_window") {
        Ok(DownsamplingMode::SincWithKaiserWindow { window_size, padding: None })
    } else if matches_lowercase(value, "hann") || matches_lowercase(value, "hann_pooling1d") {
        Ok(DownsamplingMode::HannPooling1d { window_size, padding: 0, normalize: true })
    } else {
        Err(SpafeError::InvalidParameter(DOWNSAMPLING_NAME_ERROR))
    }
}

/// Which elementwise compression a cochleagram applies; the caller supplies
/// the scale, offset and power.
#[derive(Debug, Clone, Copy, PartialEq, Eq, Structural)]
pub enum CompressionKind {
    /// Scale and offset after rectification.
    Linear,
    /// Power of the rectified, scaled values.
    Power,
    /// Power compression with a clipped gradient.
    ClippedGradPower,
}

/// The compression that a lowercased name denotes: `Some(None)` for "none".
pub open spec fn compression_named(name: Seq<char>) -> Option<Option<CompressionKind>> {
    if name == "none"@ {
        Some(None)
    } else if name == "linear"@ {
        Some(Some(CompressionKind::Linear))
    } else if name == "power"@ {
        Some(Some(CompressionKind::Power))
    } else if name == "clipped_grad_power"@ {
        Some(Some(CompressionKind::ClippedGradPower))
    } else {
        None
    }
}

/// The names of each compression kind (and of none).
pub open spec fn compression_called(value: Option<CompressionKind>, name: Seq<char>) -> bool {
    match value {
        None => name == "none"@,
        Some(CompressionKind::Linear) => name == "linear"@,
        Some(CompressionKind::Power) => name == "power"@,
        Some(CompressionKind::ClippedGradPower) => name == "clipped_grad_power"@,
    }
}

/// Every listed name of a compression choice, in any ASCII case, parses to that choice.
pub proof fn lemma_compression_names_parse(s: Seq<char>)
    ensures
        forall|v: Option<CompressionKind>| #[trigger] compression_called(v, ascii_lowercase(s)) ==> compression_named(ascii_lowercase(s)) == Some(v),
{
    reveal_strlit("none");
    reveal_strlit("linear");
    reveal_strlit("power");
    reveal_strlit("clipped_grad_power");
    assert("none"@.len() != "linear"@.len());
    assert("none"@ != "linear"@);
    assert("none"@.len() != "power"@.len());
    assert("none"@ != "power"@);
    assert("none"@.len() != "clipped_grad_power"@.len());
    assert("none"@ != "clipped_grad_power"@);
    assert("linear"@.len() != "power"@.len());
    assert("linear"@ != "power"@);
    assert("linear"@.len() != "clipped_grad_power"@.len());
    assert("linear"@ != "clipped_grad_power"@);
    assert("power"@.len() != "clipped_grad_power"@.len());
    assert("power"@ != "clipped_grad_power"@);
}

/// Parse an optional compression name, ignoring ASCII case; no name and
/// "none" both mean no compression.
pub fn parse_compression(value: Option<&str>) -> (r: Result<Option<CompressionKind>, SpafeError>)
    ensures
        match value {
            None => r == Ok::<Option<CompressionKind>, SpafeError>(None),
            Some(v) => match compression_named(ascii_lowercase(v@)) {
                Some(c) => r == Ok::<Option<CompressionKind>, SpafeError>(c),
                None => r == Err::<Option<CompressionKind>, SpafeError>(
                    SpafeError::InvalidParameter(COMPRESSION_NAME_ERROR),
                ),
            },
        },
        forall|v: Option<CompressionKind>| value is Some && #[trigger] compression_called(v, ascii_lowercase(value.unwrap()@)) ==> r == Ok::<Option<CompressionKind>, SpafeError>(v),
{
    proof {
        if let Some(name) = value {
            lemma_compression_names_parse(name@);
        }
    }
    match value {
        None => Ok(None),
        Some(v) => {
            if matches_lowercase(v, "none") {
                Ok(None)
            } else if matches_lowercase(v, "linear") {
                Ok(Some(CompressionKind::Linear))
            } else if matches_lowercase(v, "power") {
                Ok(Some(CompressionKind::Power))
            } else if matches_lowercase(v, "clipped_grad_power") {
                Ok(Some(CompressionKind::ClippedGradPower))
            } else {
                Err(SpafeError::InvalidParameter(COMPRESSION_NAME_ERROR))
            }
        },
    }
}

} // verus!
