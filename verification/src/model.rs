//! The speech models the renderer knows how to fetch, and where they are
//! published.  Only the naming lives here; fetching is I/O and stays
//! outside the library.

use vstd::prelude::*;

verus! {

/// One published speech model: short language code, full language code,
/// voice name and quality size.
#[derive(Debug, Clone, PartialEq, Eq)]
pub struct Model {
    pub shortlang: String,
    pub lang: String,
    pub name: String,
    pub size: String,
}

/// The text of a model's download URL, without the file suffix.
pub open spec fn spec_base_url(m: Model) -> Seq<char> {
    "https://huggingface.co/rhasspy/piper-voices/resolve/main/"@ + m.shortlang@ + "/"@ + m.lang@
        + "/"@ + m.name@ + "/"@ + m.size@ + "/"@ + m.lang@ + "-"@ + m.name@ + "-"@ + m.size@
}

impl Model {
    /// A model from its four naming parts.
    pub fn new(shortlang: &str, lang: &str, name: &str, size: &str) -> (m: Model)
        ensures
            m.shortlang@ == shortlang@,
            m.lang@ == lang@,
            m.name@ == name@,
            m.size@ == size@,
    {
        Model {
            shortlang: String::from_str(shortlang),
            lang: String::from_str(lang),
            name: String::from_str(name),
            size: String::from_str(size),
        }
    }

    /// The models fetched by default: five American English voices.
    pub fn init_all() -> (ms: Vec<Model>)
        ensures
            ms@.len() == 5,
            forall|i: int|
                0 <= i < 5 ==> #[trigger] ms@[i].shortlang@ == "en"@ && ms@[i].lang@ == "en_US"@,
            ms@[0].name@ == "kristin"@ && ms@[0].size@ == "medium"@,
            ms@[1].name@ == "amy"@ && ms@[1].size@ == "medium"@,
            ms@[2].name@ == "reza_ibrahim"@ && ms@[2].size@ == "medium"@,
            ms@[3].name@ == "ryan"@ && ms@[3].size@ == "high"@,
            ms@[4].name@ == "libritts"@ && ms@[4].size@ == "high"@,
    {
        let mut ms: Vec<Model> = Vec::new();
        ms.push(Model::new("en", "en_US", "kristin", "medium"));
        ms.push(Model::new("en", "en_US", "amy", "medium"));
        ms.push(Model::new("en", "en_US", "reza_ibrahim", "medium"));
        ms.push(Model::new("en", "en_US", "ryan", "high"));
        ms.push(Model::new("en", "en_US", "libritts", "high"));
        ms
    }

    /// The model's download URL up to the file suffix:
    /// `<base>/<shortlang>/<lang>/<name>/<size>/<lang>-<name>-<size>`.
    pub fn base_url(&self) -> (r: String)
        ensures
            r@ == spec_base_url(*self),
    {
        let mut r = String::from_str("https://huggingface.co/rhasspy/piper-voices/resolve/main/");
        r.append(self.shortlang.as_str());
        r.append("/");
        r.append(self.lang.as_str());
        r.append("/");
        r.append(self.name.as_str());
        r.append("/");
        r.append(self.size.as_str());
        r.append("/");
        r.append(self.lang.as_str());
        r.append("-");
        r.append(self.name.as_str());
        r.append("-");
        r.append(self.size.as_str());
        r
    }
}

} // verus!
