//! Configuration binding.
//!
//! The configuration reaches the library as two key/value sections (the
//! network section and the transform section), already split into pairs of
//! strings. Every dimension the stages need must be present and parse as a
//! decimal integer; a key that is absent or unparsable fails construction
//! with `ConfigError` naming that key.

use vstd::prelude::*;

verus! {

use crate::errors::{DfError, DfErrorKind};

/// `c` is a decimal digit.
pub open spec fn is_digit(c: char) -> bool {
    '0' <= c && c <= '9'
}

/// Numeric value of a digit.
pub open spec fn digit_val(c: char) -> int {
    c as int - '0' as int
}

/// Every character of `s` is a decimal digit.
pub open spec fn all_digits(s: Seq<char>) -> bool {
    forall|i: int| 0 <= i < s.len() ==> is_digit(#[trigger] s[i])
}

/// The number a digit string denotes, most significant digit first.
pub open spec fn digits_val(s: Seq<char>) -> int
    decreases s.len(),
{
    if s.len() == 0 {
        0
    } else {
        digits_val(s.drop_last()) * 10 + digit_val(s.last())
    }
}

/// A digit string denotes a non-negative number.
pub proof fn lemma_digits_val_nonneg(s: Seq<char>)
    requires
        all_digits(s),
    ensures
        digits_val(s) >= 0,
    decreases s.len(),
{
    if s.len() > 0 {
        assert(all_digits(s.drop_last()));
        lemma_digits_val_nonneg(s.drop_last());
    }
}

/// Extending a digit string never shrinks its value.
pub proof fn lemma_digits_val_monotone(s: Seq<char>, j: int)
    requires
        all_digits(s),
        0 <= j <= s.len(),
    ensures
        digits_val(s) >= digits_val(s.take(j)),
    decreases s.len() - j,
{
    if j < s.len() {
        assert(all_digits(s.take(j)));
        lemma_digits_val_nonneg(s.take(j));
        assert(s.take(j + 1).drop_last() =~= s.take(j));
        assert(s.take(j + 1).last() == s[j]);
        assert(digits_val(s.take(j + 1)) >= digits_val(s.take(j)));
        lemma_digits_val_monotone(s, j + 1);
        assert(s.take(s.len() as int) =~= s);
    } else {
        assert(s.take(j) =~= s);
    }
}

/// Parse a decimal `usize`. Returns the denoted value exactly when `s` is a
/// non-empty digit string whose value fits in `usize`; `None` otherwise.
pub fn parse_usize(s: &str) -> (r: Option<usize>)
    ensures
        match r {
            Some(v) => s@.len() > 0 && all_digits(s@) && digits_val(s@) == v as int,
            None => s@.len() == 0 || !all_digits(s@) || digits_val(s@) > usize::MAX as int,
        },
{
    let n = s.unicode_len();
    if n == 0 {
        return None;
    }
    let mut v: usize = 0;
    let mut i: usize = 0;
    while i < n
        invariant
            0 < n == s@.len(),
            i <= n,
            all_digits(s@.take(i as int)),
            v as int == digits_val(s@.take(i as int)),
        decreases n - i,
    {
        let c = s.get_char(i);
        if c < '0' || c > '9' {
            assert(!is_digit(s@[i as int]));
            return None;
        }
        let d = (c as usize) - ('0' as usize);
        if v > (usize::MAX - d) / 10 {
            proof {
                vstd::arithmetic::div_mod::lemma_fundamental_div_mod(
                    (usize::MAX - d) as int,
                    10,
                );
                assert(s@.take(i + 1).drop_last() =~= s@.take(i as int));
                assert(digits_val(s@.take(i + 1)) > usize::MAX as int);
                if all_digits(s@) {
                    lemma_digits_val_monotone(s@, i + 1);
                }
            }
            return None;
        }
        proof {
            vstd::arithmetic::div_mod::lemma_fundamental_div_mod((usize::MAX - d) as int, 10);
            assert(s@.take(i + 1).drop_last() =~= s@.take(i as int));
        }
        v = v * 10 + d;
        i = i + 1;
    }
    proof {
        assert(s@.take(n as int) =~= s@);
    }
    Some(v)
}

/// The value bound to `key`: the first pair that carries it, front to back.
pub open spec fn lookup(pairs: Seq<(String, String)>, key: Seq<char>) -> Option<Seq<char>>
    decreases pairs.len(),
{
    if pairs.len() == 0 {
        None
    } else if pairs[0].0@ == key {
        Some(pairs[0].1@)
    } else {
        lookup(pairs.drop_first(), key)
    }
}

/// The integer bound to `key`, if the key is present and its value is a
/// digit string that fits in `usize`.
pub open spec fn usize_of(pairs: Seq<(String, String)>, key: Seq<char>) -> Option<int> {
    match lookup(pairs, key) {
        None => None,
        Some(s) => if s.len() > 0 && all_digits(s) && digits_val(s) <= usize::MAX as int {
            Some(digits_val(s))
        } else {
            None
        },
    }
}

/// One key/value section of the configuration.
pub struct ConfigSection {
    pub pairs: Vec<(String, String)>,
}

impl ConfigSection {
    /// A section with no keys.
    pub fn empty() -> (r: ConfigSection)
        ensures
            r.pairs@.len() == 0,
    {
        ConfigSection { pairs: Vec::new() }
    }

    /// Bind `key` to `value`, appending after any existing keys.
    pub fn insert(&mut self, key: String, value: String)
        ensures
            final(self).pairs@ == old(self).pairs@.push((key, value)),
    {
        self.pairs.push((key, value));
    }

    /// Look the key up, front to back.
    pub fn get<'a>(&'a self, key: &String) -> (r: Option<&'a String>)
        ensures
            match r {
                Some(v) => lookup(self.pairs@, key@) == Some(v@),
                None => lookup(self.pairs@, key@) is None,
            },
    {
        let n = self.pairs.len();
        let mut i: usize = 0;
        proof {
            assert(self.pairs@.skip(0) =~= self.pairs@);
        }
        while i < n
            invariant
                i <= n == self.pairs@.len(),
                lookup(self.pairs@, key@) == lookup(self.pairs@.skip(i as int), key@),
            decreases n - i,
        {
            proof {
                assert(self.pairs@.skip(i as int)[0] == self.pairs@[i as int]);
                assert(self.pairs@.skip(i as int).drop_first() =~= self.pairs@.skip(i + 1));
            }
            if self.pairs[i].0 == *key {
                return Some(&self.pairs[i].1);
            }
            i = i + 1;
        }
        proof {
            assert(self.pairs@.skip(n as int) =~= Seq::<(String, String)>::empty());
        }
        None
    }

    /// The integer bound to `key`, or `ConfigError` naming the key when it is
    /// absent or unparsable.
    pub fn get_usize(&self, key: &String) -> (r: Result<usize, DfError>)
        ensures
            match r {
                Ok(v) => usize_of(self.pairs@, key@) == Some(v as int),
                Err(e) => usize_of(self.pairs@, key@) is None && e == DfError::ConfigError(*key),
            },
    {
        match self.get(key) {
            None => Err(DfError::ConfigError(key.clone())),
            Some(value) => match parse_usize(value.as_str()) {
                None => Err(DfError::ConfigError(key.clone())),
                Some(v) => Ok(v),
            },
        }
    }
}

/// What the configuration parser yields for the section of the given name in
/// the given text: its key/value pairs in order, or nothing when the text is
/// malformed or holds no such section.
pub uninterp spec fn ini_section_of(text: Seq<char>, section: Seq<char>) -> Option<
    Seq<(String, String)>,
>;

/// Relies on rust-ini's `Ini::load_from_str` and `Ini::section`: the sections
/// a configuration text denotes depend on the text alone.
#[verifier::external_body]
fn load_ini_section(text: &str, section: &str) -> (r: Option<Vec<(String, String)>>)
    ensures
        match r {
            Some(v) => ini_section_of(text@, section@) == Some(v@),
            None => ini_section_of(text@, section@) is None,
        },
{
    let parsed = match ini::Ini::load_from_str(text) {
        Ok(parsed) => parsed,
        Err(_) => {
            return None;
        },
    };
    let props = parsed.section(Some(section))?;
    let mut pairs: Vec<(String, String)> = Vec::new();
    for (k, v) in props.iter() {
        pairs.push((k.to_owned(), v.to_owned()));
    }
    Some(pairs)
}

/// Every dimension the stages bind, pulled from the two configuration
/// sections.
#[derive(Debug)]
pub struct DfConfig {
    /// Sample rate in Hz.
    pub sr: usize,
    /// Samples advanced between consecutive frames.
    pub hop_size: usize,
    /// Transform size; the spectrum carries `fft_size / 2 + 1` bins.
    pub fft_size: usize,
    /// Minimum usable frequency bins per ERB band.
    pub min_nb_erb_freqs: usize,
    /// Number of ERB bands of the magnitude feature and the mask.
    pub nb_erb: usize,
    /// Number of low bins the deep filter works on.
    pub nb_df: usize,
    /// Depth of the spectral history the deep filter blends.
    pub df_order: usize,
    /// Hidden size of the embedding recurrence.
    pub emb_hidden_dim: usize,
    /// Hidden size of the coefficient recurrence.
    pub df_hidden_dim: usize,
    /// Layer count of the coefficient recurrence.
    pub df_num_layers: usize,
    /// Convolution channel width.
    pub conv_ch: usize,
    /// Convolution width factor.
    pub conv_width_factor: usize,
    /// Replication-group count of the recurrences.
    pub gru_groups: usize,
    /// Normalization smoothing factor, passed on verbatim to the external
    /// feature extraction (it is no integer and the core never computes
    /// with it).
    pub norm_alpha: String,
}

/// All keys of the network section parse.
pub open spec fn net_section_ok(net: Seq<(String, String)>) -> bool {
    &&& usize_of(net, "df_order"@) is Some
    &&& usize_of(net, "emb_hidden_dim"@) is Some
    &&& usize_of(net, "df_hidden_dim"@) is Some
    &&& usize_of(net, "df_num_layers"@) is Some
    &&& usize_of(net, "conv_ch"@) is Some
    &&& usize_of(net, "conv_width_factor"@) is Some
    &&& usize_of(net, "gru_groups"@) is Some
}

/// All keys of the transform section parse, and the smoothing factor is
/// present (it is handed on verbatim to the external feature extraction).
pub open spec fn df_section_ok(df: Seq<(String, String)>) -> bool {
    &&& usize_of(df, "sr"@) is Some
    &&& usize_of(df, "hop_size"@) is Some
    &&& usize_of(df, "fft_size"@) is Some
    &&& usize_of(df, "min_nb_erb_freqs"@) is Some
    &&& usize_of(df, "nb_erb"@) is Some
    &&& usize_of(df, "nb_df"@) is Some
    &&& lookup(df, "norm_alpha"@) is Some
}

/// A failed binding: some required key of one of the two sections is absent
/// or unparsable, and the error names such a key.
pub open spec fn config_key_error(
    net: Seq<(String, String)>,
    df: Seq<(String, String)>,
    e: DfError,
) -> bool {
    &&& !(net_section_ok(net) && df_section_ok(df))
    &&& e.spec_kind() == DfErrorKind::ConfigError
    &&& match e {
        DfError::ConfigError(k) => usize_of(net, k@) is None || usize_of(df, k@) is None || (k@
            == "norm_alpha"@ && lookup(df, k@) is None),
        _ => false,
    }
}

/// The configuration `binding` agrees with the two sections.
pub open spec fn config_matches(
    c: DfConfig,
    net: Seq<(String, String)>,
    df: Seq<(String, String)>,
) -> bool {
    &&& usize_of(net, "df_order"@) == Some(c.df_order as int)
    &&& usize_of(net, "emb_hidden_dim"@) == Some(c.emb_hidden_dim as int)
    &&& usize_of(net, "df_hidden_dim"@) == Some(c.df_hidden_dim as int)
    &&& usize_of(net, "df_num_layers"@) == Some(c.df_num_layers as int)
    &&& usize_of(net, "conv_ch"@) == Some(c.conv_ch as int)
    &&& usize_of(net, "conv_width_factor"@) == Some(c.conv_width_factor as int)
    &&& usize_of(net, "gru_groups"@) == Some(c.gru_groups as int)
    &&& usize_of(df, "sr"@) == Some(c.sr as int)
    &&& usize_of(df, "hop_size"@) == Some(c.hop_size as int)
    &&& usize_of(df, "fft_size"@) == Some(c.fft_size as int)
    &&& usize_of(df, "min_nb_erb_freqs"@) == Some(c.min_nb_erb_freqs as int)
    &&& usize_of(df, "nb_erb"@) == Some(c.nb_erb as int)
    &&& usize_of(df, "nb_df"@) == Some(c.nb_df as int)
    &&& lookup(df, "norm_alpha"@) == Some(c.norm_alpha@)
}

impl DfConfig {
    /// Bind every required key of the two sections. Succeeds exactly when
    /// every key is present and parses; otherwise fails with `ConfigError`
    /// naming an offending key, and binds nothing.
    pub fn from_sections(net: &ConfigSection, df: &ConfigSection) -> (r: Result<DfConfig, DfError>)
        ensures
            match r {
                Ok(c) => config_matches(c, net.pairs@, df.pairs@),
                Err(e) => config_key_error(net.pairs@, df.pairs@, e),
            },
    {
        let df_order = net.get_usize(&("df_order".to_owned()))?;
        let emb_hidden_dim = net.get_usize(&("emb_hidden_dim".to_owned()))?;
        let df_hidden_dim = net.get_usize(&("df_hidden_dim".to_owned()))?;
        let df_num_layers = net.get_usize(&("df_num_layers".to_owned()))?;
        let conv_ch = net.get_usize(&("conv_ch".to_owned()))?;
        let conv_width_factor = net.get_usize(&("conv_width_factor".to_owned()))?;
        let gru_groups = net.get_usize(&("gru_groups".to_owned()))?;
        let sr = df.get_usize(&("sr".to_owned()))?;
        let hop_size = df.get_usize(&("hop_size".to_owned()))?;
        let fft_size = df.get_usize(&("fft_size".to_owned()))?;
        let min_nb_erb_freqs = df.get_usize(&("min_nb_erb_freqs".to_owned()))?;
        let nb_erb = df.get_usize(&("nb_erb".to_owned()))?;
        let nb_df = df.get_usize(&("nb_df".to_owned()))?;
        let norm_alpha_key = "norm_alpha".to_owned();
        let norm_alpha = match df.get(&norm_alpha_key) {
            Some(v) => v.clone(),
            None => {
                return Err(DfError::ConfigError(norm_alpha_key));
            },
        };
        Ok(
            DfConfig {
                sr,
                hop_size,
                fft_size,
                min_nb_erb_freqs,
                nb_erb,
                nb_df,
                df_order,
                emb_hidden_dim,
                df_hidden_dim,
                df_num_layers,
                conv_ch,
                conv_width_factor,
                gru_groups,
                norm_alpha,
            },
        )
    }

    /// Parse a whole configuration text and bind every required key of its
    /// `deepfilternet` and `df` sections. Fails with `ConfigError` naming the
    /// missing section when the text is malformed or a section is absent, and
    /// naming the offending key when one is absent or unparsable.
    pub fn from_ini_text(text: &str) -> (r: Result<DfConfig, DfError>)
        ensures
            match r {
                Ok(c) => match (
                    ini_section_of(text@, "deepfilternet"@),
                    ini_section_of(text@, "df"@),
                ) {
                    (Some(net), Some(df)) => config_matches(c, net, df),
                    _ => false,
                },
                Err(e) => {
                    &&& e.spec_kind() == DfErrorKind::ConfigError
                    &&& if ini_section_of(text@, "deepfilternet"@) is None {
                        e matches DfError::ConfigError(k) && k@ == "deepfilternet"@
                    } else if ini_section_of(text@, "df"@) is None {
                        e matches DfError::ConfigError(k) && k@ == "df"@
                    } else {
                        match (
                            ini_section_of(text@, "deepfilternet"@),
                            ini_section_of(text@, "df"@),
                        ) {
                            (Some(net), Some(df)) => config_key_error(net, df, e),
                            _ => false,
                        }
                    }
                },
            },
    {
        let net = match load_ini_section(text, "deepfilternet") {
            Some(v) => v,
            None => {
                return Err(DfError::ConfigError("deepfilternet".to_owned()));
            },
        };
        let df = match load_ini_section(text, "df") {
            Some(v) => v,
            None => {
                return Err(DfError::ConfigError("df".to_owned()));
            },
        };
        DfConfig::from_sections(&ConfigSection { pairs: net }, &ConfigSection { pairs: df })
    }

    /// Number of usable frequency bins of the configured transform.
    pub fn n_freq(&self) -> (r: usize)
        ensures
            r == self.fft_size / 2 + 1,
    {
        self.fft_size / 2 + 1
    }
}

} // verus!
