//! The settings of a client of the provisioning API, and the addresses it
//! derives from them.

use vstd::prelude::*;
use crate::cache::{ContentCache, hyphenated, uuid_text};

verus! {

/// The provisioning API's default endpoint.
pub const DEFAULT_API_URL: &'static str = "https://api.forged.dev";

/// Where and as whom a client talks to the provisioning API, and where it
/// caches binary parts. The cache folder is resolved by the caller; without
/// one, nothing is cached.
pub struct Client {
    pub token: String,
    pub instance_url: String,
    pub cache_folder: Option<String>,
}


impl Client {
    /// A client of the default endpoint, authenticating with `token`.
    pub fn new(token: String) -> (r: Client)
        ensures
            r.token == token,
            r.instance_url@ == DEFAULT_API_URL@,
            r.cache_folder.is_none(),
    {
        Client { token, instance_url: DEFAULT_API_URL.to_owned(), cache_folder: None }
    }

    /// The same client, authenticating with `token` instead.
    pub fn token(self, token: String) -> (r: Client)
        ensures
            r.token == token,
            r.instance_url == self.instance_url,
            r.cache_folder == self.cache_folder,
    {
        Client { token, ..self }
    }

    /// The same client, talking to `instance_url` instead; meant for
    /// development or self-hosted instances.
    pub fn api(self, instance_url: String) -> (r: Client)
        ensures
            r.token == self.token,
            r.instance_url == instance_url,
            r.cache_folder == self.cache_folder,
    {
        Client { instance_url, ..self }
    }

    /// The same client, caching in `folder`, or not at all.
    pub fn cache_folder(self, folder: Option<String>) -> (r: Client)
        ensures
            r.token == self.token,
            r.instance_url == self.instance_url,
            r.cache_folder == folder,
    {
        Client { cache_folder: folder, ..self }
    }

    /// The cache that this client keeps parts in.
    pub fn content_cache(&self) -> (r: ContentCache)
        ensures
            r.root == self.cache_folder,
    {
        let root = match &self.cache_folder {
            Some(f) => Some(f.clone()),
            None => None,
        };
        ContentCache::new(root)
    }

    /// The address of a part's bytes:
    /// `<instance>/project/<project>/binary/<binary>/part/<part>`.
    pub fn part_url(&self, project_id: u128, binary_id: u128, part_id: u128) -> (r: String)
        ensures
            r@ == self.instance_url@ + "/project/"@ + hyphenated(project_id) + "/binary/"@
                + hyphenated(binary_id) + "/part/"@ + hyphenated(part_id),
    {
        let mut url = self.instance_url.clone();
        url.append("/project/");
        url.append(uuid_text(project_id).as_str());
        url.append("/binary/");
        url.append(uuid_text(binary_id).as_str());
        url.append("/part/");
        url.append(uuid_text(part_id).as_str());
        url
    }
}

/// How a query declares a variable that carries an uploaded file; the
/// variable's name is the first group.
pub const UPLOAD_VARIABLE_PATTERN: &'static str = r"\$(\w+): Upload";

/// For each match of a regular expression in a text, in order, what its first
/// group matched (empty where the group took no part); nothing where the
/// pattern is not a valid expression.
pub uninterp spec fn first_groups_of(pattern: Seq<char>, text: Seq<char>) -> Option<Seq<Seq<char>>>;

pub open spec fn texts(v: Seq<String>) -> Seq<Seq<char>> {
    v.map_values(|s: String| s@)
}

/// Relies on regex::Regex::new, which refuses an invalid pattern, and on
/// Regex::captures_iter with Captures::get(1): the text of the first group of
/// each successive match.
#[verifier::external_body]
fn first_groups(pattern: &str, text: &str) -> (r: Option<Vec<String>>)
    ensures
        match r {
            Some(v) => first_groups_of(pattern@, text@) == Some(texts(v@)),
            None => first_groups_of(pattern@, text@).is_none(),
        },
{
    match regex::Regex::new(pattern) {
        Ok(re) => Some(re.captures_iter(text).map(|c| c.get(1).map_or(String::new(), |m| m.as_str().to_string())).collect()),
        Err(_) => None,
    }
}

/// The `map` entries of a multipart request with files: for the `i`-th
/// variable of type `Upload` in `query`, the path `variables.<name>` that the
/// `i`-th file fills.
pub fn upload_map_paths(query: &str) -> (r: Vec<String>)
    ensures
        match first_groups_of(UPLOAD_VARIABLE_PATTERN@, query@) {
            Some(names) => {
                &&& r@.len() == names.len()
                &&& forall|i: int| 0 <= i < names.len() ==> #[trigger] r@[i]@ == "variables."@ + names[i]
            },
            None => r@.len() == 0,
        },
{
    let names = match first_groups(UPLOAD_VARIABLE_PATTERN, query) {
        Some(names) => names,
        None => return Vec::new(),
    };
    let mut paths: Vec<String> = Vec::new();
    let mut i: usize = 0;
    while i < names.len()
        invariant
            i <= names@.len(),
            first_groups_of(UPLOAD_VARIABLE_PATTERN@, query@) == Some(texts(names@)),
            paths@.len() == i,
            forall|k: int| 0 <= k < i ==> #[trigger] paths@[k]@ == "variables."@ + names@[k]@,
        decreases names@.len() - i,
    {
        let mut path = "variables.".to_owned();
        path.append(names[i].as_str());
        paths.push(path);
        i += 1;
    }
    paths
}

/// A file sent to the provisioning API alongside a request.
#[derive(Clone, Debug, PartialEq, Eq)]
pub struct Upload {
    pub name: String,
    pub content: Vec<u8>,
}

impl Upload {
    pub fn new(name: String, content: Vec<u8>) -> (r: Upload)
        ensures
            r.name == name,
            r.content == content,
    {
        Upload { name, content }
    }
}

/// The schema that a data block of a run follows, by name.
#[derive(Clone, Debug, PartialEq, Eq)]
pub struct BlockSchema {
    pub name: String,
}

} // verus!
