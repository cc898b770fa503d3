//! Plugin names that Minecraft servers write into failure messages.

use vstd::prelude::*;
use crate::patterns::{
    group, group_or_empty, group_text, group_text_or_empty, groups_view, regex_captures,
    regex_captures_of,
};
use crate::text::{opt_view, push_str};

verus! {

/// `Could not pass event E to Plugin vX`.
pub const EVENT_EXCEPTION_PATTERN: &'static str = r"Could not pass event (?P<event>\w+) to (?P<plugin>[\w\-]+)\s*v(?P<version>[\w\.\-]+)";

/// `Plugin P vX generated an exception when executing task N`.
pub const PLUGIN_TASK_EXCEPTION_PATTERN: &'static str = r"Plugin (?P<plugin>[\w\-]+)\s*v(?P<version>[\w\.\-]+) generated an exception when executing task (?P<task>\d+)";

/// `[Plugin] message`.
pub const PLUGIN_PREFIX_PATTERN: &'static str = r"^\[(?P<plugin>[\w\-]+)\]\s*(?P<msg>.*)$";

/// A plugin named by a server message, with its version and the event or
/// task that failed when the message gives them.
#[derive(Debug, Clone, PartialEq, Eq)]
pub struct ExtractedPluginInfo {
    pub plugin_name: String,
    pub plugin_version: Option<String>,
    pub event_name: Option<String>,
}

/// The content of extracted plugin information.
pub struct PluginInfoModel {
    pub plugin_name: Seq<char>,
    pub plugin_version: Option<Seq<char>>,
    pub event_name: Option<Seq<char>>,
}

impl View for ExtractedPluginInfo {
    type V = PluginInfoModel;

    open spec fn view(&self) -> PluginInfoModel {
        PluginInfoModel {
            plugin_name: self.plugin_name@,
            plugin_version: opt_view(self.plugin_version),
            event_name: opt_view(self.event_name),
        }
    }
}

/// The content of optional extracted plugin information.
pub open spec fn opt_info_view(o: Option<ExtractedPluginInfo>) -> Option<PluginInfoModel> {
    match o {
        Some(i) => Some(i@),
        None => None,
    }
}

/// The information in a match of `EVENT_EXCEPTION_PATTERN`.
pub open spec fn event_info(g: Seq<Option<Seq<char>>>) -> PluginInfoModel {
    PluginInfoModel { plugin_name: group_or_empty(g, 2), plugin_version: group(g, 3), event_name: group(g, 1) }
}

/// The information in a match of `PLUGIN_TASK_EXCEPTION_PATTERN`; the task
/// is named `Task #N`.
pub open spec fn task_info(g: Seq<Option<Seq<char>>>) -> PluginInfoModel {
    PluginInfoModel {
        plugin_name: group_or_empty(g, 1),
        plugin_version: group(g, 2),
        event_name: match group(g, 3) {
            Some(t) => Some("Task #"@ + t),
            None => None,
        },
    }
}

/// The information in a match of `PLUGIN_PREFIX_PATTERN`.
pub open spec fn prefix_info(g: Seq<Option<Seq<char>>>) -> PluginInfoModel {
    PluginInfoModel { plugin_name: group_or_empty(g, 1), plugin_version: None, event_name: None }
}

/// The plugin that a message names: an event failure, else a scheduled
/// task failure, else a `[Plugin]` prefix.
pub open spec fn spec_extract(message: Seq<char>) -> Option<PluginInfoModel> {
    match regex_captures_of(EVENT_EXCEPTION_PATTERN@, message) {
        Some(g) => Some(event_info(g)),
        None => match regex_captures_of(PLUGIN_TASK_EXCEPTION_PATTERN@, message) {
            Some(g) => Some(task_info(g)),
            None => match regex_captures_of(PLUGIN_PREFIX_PATTERN@, message) {
                Some(g) => Some(prefix_info(g)),
                None => None,
            },
        },
    }
}

/// Reads plugin names out of server messages.
pub struct MinecraftRules;

impl MinecraftRules {
    /// The plugin that `message` names, if any.
    pub fn extract_from_message(message: &str) -> (r: Option<ExtractedPluginInfo>)
        ensures
            opt_info_view(r) == spec_extract(message@),
    {
        if let Some(g) = regex_captures(EVENT_EXCEPTION_PATTERN, message) {
            return Some(Self::from_event_match(&g));
        }
        if let Some(g) = regex_captures(PLUGIN_TASK_EXCEPTION_PATTERN, message) {
            return Some(Self::from_task_match(&g));
        }
        if let Some(g) = regex_captures(PLUGIN_PREFIX_PATTERN, message) {
            return Some(Self::from_prefix_match(&g));
        }
        None
    }

    /// The information in a match of `EVENT_EXCEPTION_PATTERN`.
    pub fn from_event_match(g: &Vec<Option<String>>) -> (r: ExtractedPluginInfo)
        ensures
            r@ == event_info(groups_view(*g)),
    {
        ExtractedPluginInfo {
            plugin_name: group_text_or_empty(g, 2),
            plugin_version: group_text(g, 3),
            event_name: group_text(g, 1),
        }
    }

    /// The information in a match of `PLUGIN_TASK_EXCEPTION_PATTERN`.
    pub fn from_task_match(g: &Vec<Option<String>>) -> (r: ExtractedPluginInfo)
        ensures
            r@ == task_info(groups_view(*g)),
    {
        let event_name = match group_text(g, 3) {
            Some(t) => {
                let mut s = String::new();
                push_str(&mut s, "Task #");
                push_str(&mut s, t.as_str());
                Some(s)
            },
            None => None,
        };
        ExtractedPluginInfo {
            plugin_name: group_text_or_empty(g, 1),
            plugin_version: group_text(g, 2),
            event_name,
        }
    }

    /// The information in a match of `PLUGIN_PREFIX_PATTERN`.
    pub fn from_prefix_match(g: &Vec<Option<String>>) -> (r: ExtractedPluginInfo)
        ensures
            r@ == prefix_info(groups_view(*g)),
    {
        ExtractedPluginInfo { plugin_name: group_text_or_empty(g, 1), plugin_version: None, event_name: None }
    }
}

} // verus!
