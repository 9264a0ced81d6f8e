//! What a node is told when it is set up.

use vstd::prelude::*;
use crate::codec::{
    maybe_string, need_integer, need_string, need_strings, optional_string, required_integer,
    required_string, required_strings, strings_text,
};
use crate::json::{
    member_of, member_views, object_text, optional_string_text, string_text,
};
use crate::p2p::DhtConfig;
use crate::text::{clone_opt, clone_strings, decimal, str_eq};

verus! {

/// To how many peers a value of the hash table is copied where nothing is said.
pub fn default_dht_k() -> (k: usize)
    ensures
        k == 8,
{
    8
}

/// How many peers a lookup asks at a time where nothing is said.
pub fn default_dht_alpha() -> (alpha: usize)
    ensures
        alpha == 3,
{
    3
}

/// How many hops a lookup may make where nothing is said.
pub fn default_dht_hops() -> (hops: i32)
    ensures
        hops == 6,
{
    6
}

/// The configuration of a node, as it is kept in a JSON file.
#[derive(Debug)]
pub struct Config {
    pub name: String,
    pub node_id: String,
    pub port: u16,
    pub web_port: u16,
    pub bootstrap_nodes: Vec<String>,
    pub tags: Vec<String>,
    pub data_dir: String,
    pub master_url: Option<String>,
    pub is_genesis_node: bool,
    pub genesis_operator_account_id: Option<String>,
    pub dht_k: usize,
    pub dht_alpha: usize,
    pub dht_hops: i32,
    pub created_at: String,
}

/// What a [`Config`] is in contracts.
pub struct ConfigView {
    pub name: Seq<char>,
    pub node_id: Seq<char>,
    pub port: u16,
    pub web_port: u16,
    pub bootstrap_nodes: Seq<Seq<char>>,
    pub tags: Seq<Seq<char>>,
    pub data_dir: Seq<char>,
    pub master_url: Option<Seq<char>>,
    pub is_genesis_node: bool,
    pub genesis_operator_account_id: Option<Seq<char>>,
    pub dht_k: usize,
    pub dht_alpha: usize,
    pub dht_hops: i32,
    pub created_at: Seq<char>,
}

impl View for Config {
    type V = ConfigView;

    open spec fn view(&self) -> ConfigView {
        ConfigView {
            name: self.name@,
            node_id: self.node_id@,
            port: self.port,
            web_port: self.web_port,
            bootstrap_nodes: self.bootstrap_nodes.deep_view(),
            tags: self.tags.deep_view(),
            data_dir: self.data_dir@,
            master_url: self.master_url.deep_view(),
            is_genesis_node: self.is_genesis_node,
            genesis_operator_account_id: self.genesis_operator_account_id.deep_view(),
            dht_k: self.dht_k,
            dht_alpha: self.dht_alpha,
            dht_hops: self.dht_hops,
            created_at: self.created_at@,
        }
    }
}

impl DeepView for Config {
    type V = ConfigView;

    open spec fn deep_view(&self) -> ConfigView {
        self@
    }
}

impl Clone for Config {
    fn clone(&self) -> (r: Self)
        ensures
            r@ == self@,
    {
        Config {
            name: self.name.clone(),
            node_id: self.node_id.clone(),
            port: self.port,
            web_port: self.web_port,
            bootstrap_nodes: clone_strings(&self.bootstrap_nodes),
            tags: clone_strings(&self.tags),
            data_dir: self.data_dir.clone(),
            master_url: clone_opt(&self.master_url),
            is_genesis_node: self.is_genesis_node,
            genesis_operator_account_id: clone_opt(&self.genesis_operator_account_id),
            dht_k: self.dht_k,
            dht_alpha: self.dht_alpha,
            dht_hops: self.dht_hops,
            created_at: self.created_at.clone(),
        }
    }
}

/// A port that has to be there.
pub open spec fn required_port(member: Option<Seq<char>>) -> Option<u16> {
    match required_integer(member) {
        Some(n) => if 0 <= n <= u16::MAX {
            Some(n as u16)
        } else {
            None
        },
        None => None,
    }
}

/// A count that is `default` where the file says nothing.
pub open spec fn count_or(member: Option<Seq<char>>, default: usize) -> Option<usize> {
    match member {
        None => Some(default),
        Some(m) => match crate::json::integer_in(m) {
            Some(n) => if 0 <= n <= usize::MAX {
                Some(n as usize)
            } else {
                None
            },
            None => None,
        },
    }
}

/// A number of hops that is `default` where the file says nothing.
pub open spec fn hops_or(member: Option<Seq<char>>, default: i32) -> Option<i32> {
    match member {
        None => Some(default),
        Some(m) => match crate::json::integer_in(m) {
            Some(n) => if i32::MIN <= n <= i32::MAX {
                Some(n as i32)
            } else {
                None
            },
            None => None,
        },
    }
}

/// A truth value that has to be there: a member that reads `true` or `false`.
pub open spec fn required_flag(member: Option<Seq<char>>) -> Option<bool> {
    match member {
        Some(m) => if m == "true"@ {
            Some(true)
        } else if m == "false"@ {
            Some(false)
        } else {
            None
        },
        None => None,
    }
}

/// The configuration that `text` holds. The three settings of the hash
/// table may be missing and then are 8, 3 and 6.
pub open spec fn config_in(text: Seq<char>) -> Option<ConfigView> {
    match (
        required_string(member_of(text, "name"@)),
        required_string(member_of(text, "node_id"@)),
        required_port(member_of(text, "port"@)),
        required_port(member_of(text, "web_port"@)),
        required_strings(member_of(text, "bootstrap_nodes"@)),
    ) {
        (Some(name), Some(node_id), Some(port), Some(web_port), Some(bootstrap_nodes)) => match (
            required_strings(member_of(text, "tags"@)),
            required_string(member_of(text, "data_dir"@)),
            optional_string(member_of(text, "master_url"@)),
            required_flag(member_of(text, "is_genesis_node"@)),
            optional_string(member_of(text, "genesis_operator_account_id"@)),
        ) {
            (
                Some(tags),
                Some(data_dir),
                Some(master_url),
                Some(is_genesis_node),
                Some(genesis_operator_account_id),
            ) => match (
                count_or(member_of(text, "dht_k"@), 8),
                count_or(member_of(text, "dht_alpha"@), 3),
                hops_or(member_of(text, "dht_hops"@), 6),
                required_string(member_of(text, "created_at"@)),
            ) {
                (Some(dht_k), Some(dht_alpha), Some(dht_hops), Some(created_at)) => Some(
                    ConfigView {
                        name,
                        node_id,
                        port,
                        web_port,
                        bootstrap_nodes,
                        tags,
                        data_dir,
                        master_url,
                        is_genesis_node,
                        genesis_operator_account_id,
                        dht_k,
                        dht_alpha,
                        dht_hops,
                        created_at,
                    },
                ),
                _ => None,
            },
            _ => None,
        },
        _ => None,
    }
}

/// The text of a truth value.
pub open spec fn flag_text(b: bool) -> Seq<char> {
    if b {
        "true"@
    } else {
        "false"@
    }
}

/// A configuration as a JSON object.
pub open spec fn config_text(c: ConfigView) -> Seq<char> {
    object_text(
        seq![
            ("name"@, string_text(c.name)),
            ("node_id"@, string_text(c.node_id)),
            ("port"@, decimal(c.port as int)),
            ("web_port"@, decimal(c.web_port as int)),
            ("bootstrap_nodes"@, strings_text(c.bootstrap_nodes)),
            ("tags"@, strings_text(c.tags)),
            ("data_dir"@, string_text(c.data_dir)),
            ("master_url"@, optional_string_text(c.master_url)),
            ("is_genesis_node"@, flag_text(c.is_genesis_node)),
            ("genesis_operator_account_id"@, optional_string_text(c.genesis_operator_account_id)),
            ("dht_k"@, decimal(c.dht_k as int)),
            ("dht_alpha"@, decimal(c.dht_alpha as int)),
            ("dht_hops"@, decimal(c.dht_hops as int)),
            ("created_at"@, string_text(c.created_at)),
        ],
    )
}

fn need_port(member: &Option<String>) -> (r: Option<u16>)
    ensures
        r == required_port(member.deep_view()),
{
    match need_integer(member) {
        Some(n) => {
            if n < 0 || n > u16::MAX as i64 {
                None
            } else {
                Some(n as u16)
            }
        },
        None => None,
    }
}

fn count_or_default(member: &Option<String>, default: usize) -> (r: Option<usize>)
    ensures
        r == count_or(member.deep_view(), default),
{
    match member {
        None => Some(default),
        Some(m) => match crate::json::integer_value(m.as_str()) {
            Some(n) => {
                if n < 0 || n as u64 > usize::MAX as u64 {
                    None
                } else {
                    Some(n as usize)
                }
            },
            None => None,
        },
    }
}

fn hops_or_default(member: &Option<String>, default: i32) -> (r: Option<i32>)
    ensures
        r == hops_or(member.deep_view(), default),
{
    match member {
        None => Some(default),
        Some(m) => match crate::json::integer_value(m.as_str()) {
            Some(n) => {
                if n < i32::MIN as i64 || n > i32::MAX as i64 {
                    None
                } else {
                    Some(n as i32)
                }
            },
            None => None,
        },
    }
}

fn need_flag(member: &Option<String>) -> (r: Option<bool>)
    ensures
        r == required_flag(member.deep_view()),
{
    match member {
        Some(m) => {
            if str_eq(m.as_str(), "true") {
                Some(true)
            } else if str_eq(m.as_str(), "false") {
                Some(false)
            } else {
                None
            }
        },
        None => None,
    }
}

fn flag_json(b: bool) -> (r: String)
    ensures
        r@ == flag_text(b),
{
    if b {
        "true".to_string()
    } else {
        "false".to_string()
    }
}

impl Config {
    /// The settings of the hash table.
    pub fn dht_config(&self) -> (r: DhtConfig)
        ensures
            r.k == self.dht_k,
            r.alpha == self.dht_alpha,
            r.max_hops == self.dht_hops,
    {
        DhtConfig { k: self.dht_k, alpha: self.dht_alpha, max_hops: self.dht_hops }
    }

    /// The configuration that `text` holds, if it holds one.
    pub fn from_json(text: &str) -> (r: Option<Config>)
        ensures
            r.deep_view() == config_in(text@),
    {
        let name = need_string(&crate::json::member(text, "name"));
        let node_id = need_string(&crate::json::member(text, "node_id"));
        let port = need_port(&crate::json::member(text, "port"));
        let web_port = need_port(&crate::json::member(text, "web_port"));
        let bootstrap_nodes = need_strings(&crate::json::member(text, "bootstrap_nodes"));
        let (name, node_id, port, web_port, bootstrap_nodes) = match (
            name,
            node_id,
            port,
            web_port,
            bootstrap_nodes,
        ) {
            (Some(a), Some(b), Some(c), Some(d), Some(e)) => (a, b, c, d, e),
            _ => {
                return None;
            },
        };
        let tags = need_strings(&crate::json::member(text, "tags"));
        let data_dir = need_string(&crate::json::member(text, "data_dir"));
        let master_url = maybe_string(&crate::json::member(text, "master_url"));
        let is_genesis_node = need_flag(&crate::json::member(text, "is_genesis_node"));
        let operator = maybe_string(&crate::json::member(text, "genesis_operator_account_id"));
        let (tags, data_dir, master_url, is_genesis_node, genesis_operator_account_id) = match (
            tags,
            data_dir,
            master_url,
            is_genesis_node,
            operator,
        ) {
            (Some(a), Some(b), Some(c), Some(d), Some(e)) => (a, b, c, d, e),
            _ => {
                return None;
            },
        };
        let dht_k = count_or_default(&crate::json::member(text, "dht_k"), default_dht_k());
        let dht_alpha = count_or_default(&crate::json::member(text, "dht_alpha"), default_dht_alpha());
        let dht_hops = hops_or_default(&crate::json::member(text, "dht_hops"), default_dht_hops());
        let created_at = need_string(&crate::json::member(text, "created_at"));
        match (dht_k, dht_alpha, dht_hops, created_at) {
            (Some(dht_k), Some(dht_alpha), Some(dht_hops), Some(created_at)) => Some(
                Config {
                    name,
                    node_id,
                    port,
                    web_port,
                    bootstrap_nodes,
                    tags,
                    data_dir,
                    master_url,
                    is_genesis_node,
                    genesis_operator_account_id,
                    dht_k,
                    dht_alpha,
                    dht_hops,
                    created_at,
                },
            ),
            _ => None,
        }
    }

    /// This configuration as the text of a JSON object.
    pub fn to_json(&self) -> (r: String)
        ensures
            r@ == config_text(self@),
    {
        let mut members: Vec<(String, String)> = Vec::new();
        members.push(("name".to_string(), crate::json::string(self.name.as_str())));
        members.push(("node_id".to_string(), crate::json::string(self.node_id.as_str())));
        members.push(("port".to_string(), crate::text::decimal_text(self.port as i128)));
        members.push(("web_port".to_string(), crate::text::decimal_text(self.web_port as i128)));
        members.push(
            ("bootstrap_nodes".to_string(), crate::codec::strings_to_json(&self.bootstrap_nodes)),
        );
        members.push(("tags".to_string(), crate::codec::strings_to_json(&self.tags)));
        members.push(("data_dir".to_string(), crate::json::string(self.data_dir.as_str())));
        members.push(("master_url".to_string(), crate::json::optional_string(&self.master_url)));
        members.push(("is_genesis_node".to_string(), flag_json(self.is_genesis_node)));
        members.push(
            (
                "genesis_operator_account_id".to_string(),
                crate::json::optional_string(&self.genesis_operator_account_id),
            ),
        );
        members.push(("dht_k".to_string(), crate::text::decimal_text(self.dht_k as i128)));
        members.push(("dht_alpha".to_string(), crate::text::decimal_text(self.dht_alpha as i128)));
        members.push(("dht_hops".to_string(), crate::text::decimal_text(self.dht_hops as i128)));
        members.push(("created_at".to_string(), crate::json::string(self.created_at.as_str())));
        assert(member_views(members@) =~= seq![
            ("name"@, string_text(self@.name)),
            ("node_id"@, string_text(self@.node_id)),
            ("port"@, decimal(self@.port as int)),
            ("web_port"@, decimal(self@.web_port as int)),
            ("bootstrap_nodes"@, strings_text(self@.bootstrap_nodes)),
            ("tags"@, strings_text(self@.tags)),
            ("data_dir"@, string_text(self@.data_dir)),
            ("master_url"@, optional_string_text(self@.master_url)),
            ("is_genesis_node"@, flag_text(self@.is_genesis_node)),
            ("genesis_operator_account_id"@, optional_string_text(self@.genesis_operator_account_id)),
            ("dht_k"@, decimal(self@.dht_k as int)),
            ("dht_alpha"@, decimal(self@.dht_alpha as int)),
            ("dht_hops"@, decimal(self@.dht_hops as int)),
            ("created_at"@, string_text(self@.created_at)),
        ]);
        crate::json::object(&members)
    }
}

} // verus!
