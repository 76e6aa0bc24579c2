//! Text encoding of the domain enums as stored in the analytics database:
//! each variant is written as its snake_case name.

use crate::domain::{MetricType, ResourceType, Severity};
use vstd::prelude::*;

verus! {

/// Why a stored name could not be read back.
#[derive(Debug, Clone, Copy, PartialEq, Eq, Structural)]
pub enum DecodeError {
    UnknownVariant,
}

/// Compares two string slices by content.
pub fn str_eq(a: &str, b: &str) -> (r: bool)
    ensures
        r == (a@ == b@),
{
    a.to_owned() == b.to_owned()
}

pub open spec fn resource_type_name(t: ResourceType) -> Seq<char> {
    match t {
        ResourceType::Pod => "pod"@,
        ResourceType::Node => "node"@,
        ResourceType::Container => "container"@,
        ResourceType::Service => "service"@,
    }
}

pub open spec fn metric_type_name(t: MetricType) -> Seq<char> {
    match t {
        MetricType::CpuUsage => "cpu_usage"@,
        MetricType::MemoryUsage => "memory_usage"@,
        MetricType::NetworkIn => "network_in"@,
        MetricType::NetworkOut => "network_out"@,
        MetricType::DiskRead => "disk_read"@,
        MetricType::DiskWrite => "disk_write"@,
    }
}

pub open spec fn severity_name(s: Severity) -> Seq<char> {
    match s {
        Severity::Critical => "critical"@,
        Severity::Warning => "warning"@,
        Severity::Info => "info"@,
    }
}

pub fn encode_resource_type(t: ResourceType) -> (s: &'static str)
    ensures
        s@ == resource_type_name(t),
{
    match t {
        ResourceType::Pod => "pod",
        ResourceType::Node => "node",
        ResourceType::Container => "container",
        ResourceType::Service => "service",
    }
}

pub fn encode_metric_type(t: MetricType) -> (s: &'static str)
    ensures
        s@ == metric_type_name(t),
{
    match t {
        MetricType::CpuUsage => "cpu_usage",
        MetricType::MemoryUsage => "memory_usage",
        MetricType::NetworkIn => "network_in",
        MetricType::NetworkOut => "network_out",
        MetricType::DiskRead => "disk_read",
        MetricType::DiskWrite => "disk_write",
    }
}

pub fn encode_severity(s: Severity) -> (r: &'static str)
    ensures
        r@ == severity_name(s),
{
    match s {
        Severity::Critical => "critical",
        Severity::Warning => "warning",
        Severity::Info => "info",
    }
}

/// The resource type whose name is `s`, if any.
pub open spec fn parse_resource_type(s: Seq<char>) -> Option<ResourceType> {
    if s == "pod"@ {
        Some(ResourceType::Pod)
    } else if s == "node"@ {
        Some(ResourceType::Node)
    } else if s == "container"@ {
        Some(ResourceType::Container)
    } else if s == "service"@ {
        Some(ResourceType::Service)
    } else {
        None
    }
}

/// The metric type whose name is `s`, if any.
pub open spec fn parse_metric_type(s: Seq<char>) -> Option<MetricType> {
    if s == "cpu_usage"@ {
        Some(MetricType::CpuUsage)
    } else if s == "memory_usage"@ {
        Some(MetricType::MemoryUsage)
    } else if s == "network_in"@ {
        Some(MetricType::NetworkIn)
    } else if s == "network_out"@ {
        Some(MetricType::NetworkOut)
    } else if s == "disk_read"@ {
        Some(MetricType::DiskRead)
    } else if s == "disk_write"@ {
        Some(MetricType::DiskWrite)
    } else {
        None
    }
}

/// The severity whose name is `s`, if any.
pub open spec fn parse_severity(s: Seq<char>) -> Option<Severity> {
    if s == "critical"@ {
        Some(Severity::Critical)
    } else if s == "warning"@ {
        Some(Severity::Warning)
    } else if s == "info"@ {
        Some(Severity::Info)
    } else {
        None
    }
}

/// Reads a stored resource type name.
pub fn decode_resource_type(s: &str) -> (r: Result<ResourceType, DecodeError>)
    ensures
        r == match parse_resource_type(s@) {
            Some(t) => Ok::<ResourceType, DecodeError>(t),
            None => Err(DecodeError::UnknownVariant),
        },
{
    if str_eq(s, "pod") {
        Ok(ResourceType::Pod)
    } else if str_eq(s, "node") {
        Ok(ResourceType::Node)
    } else if str_eq(s, "container") {
        Ok(ResourceType::Container)
    } else if str_eq(s, "service") {
        Ok(ResourceType::Service)
    } else {
        Err(DecodeError::UnknownVariant)
    }
}

/// Reads a stored metric type name.
pub fn decode_metric_type(s: &str) -> (r: Result<MetricType, DecodeError>)
    ensures
        r == match parse_metric_type(s@) {
            Some(t) => Ok::<MetricType, DecodeError>(t),
            None => Err(DecodeError::UnknownVariant),
        },
{
    if str_eq(s, "cpu_usage") {
        Ok(MetricType::CpuUsage)
    } else if str_eq(s, "memory_usage") {
        Ok(MetricType::MemoryUsage)
    } else if str_eq(s, "network_in") {
        Ok(MetricType::NetworkIn)
    } else if str_eq(s, "network_out") {
        Ok(MetricType::NetworkOut)
    } else if str_eq(s, "disk_read") {
        Ok(MetricType::DiskRead)
    } else if str_eq(s, "disk_write") {
        Ok(MetricType::DiskWrite)
    } else {
        Err(DecodeError::UnknownVariant)
    }
}

/// Reads a stored severity name.
pub fn decode_severity(s: &str) -> (r: Result<Severity, DecodeError>)
    ensures
        r == match parse_severity(s@) {
            Some(v) => Ok::<Severity, DecodeError>(v),
            None => Err(DecodeError::UnknownVariant),
        },
{
    if str_eq(s, "critical") {
        Ok(Severity::Critical)
    } else if str_eq(s, "warning") {
        Ok(Severity::Warning)
    } else if str_eq(s, "info") {
        Ok(Severity::Info)
    } else {
        Err(DecodeError::UnknownVariant)
    }
}

/// A stored resource type reads back as the type that was written.
pub proof fn lemma_resource_type_round_trip(t: ResourceType)
    ensures
        parse_resource_type(resource_type_name(t)) == Some(t),
{
    reveal_strlit("pod");
    reveal_strlit("node");
    reveal_strlit("container");
    reveal_strlit("service");
    assert("node"@.len() != "pod"@.len());
    assert("container"@.len() != "pod"@.len());
    assert("container"@.len() != "node"@.len());
    assert("service"@.len() != "pod"@.len());
    assert("service"@.len() != "node"@.len());
    assert("service"@.len() != "container"@.len());
}

/// A stored metric type reads back as the type that was written.
pub proof fn lemma_metric_type_round_trip(t: MetricType)
    ensures
        parse_metric_type(metric_type_name(t)) == Some(t),
{
    reveal_strlit("cpu_usage");
    reveal_strlit("memory_usage");
    reveal_strlit("network_in");
    reveal_strlit("network_out");
    reveal_strlit("disk_read");
    reveal_strlit("disk_write");
    assert("memory_usage"@.len() != "cpu_usage"@.len());
    assert("network_in"@.len() != "cpu_usage"@.len());
    assert("network_in"@.len() != "memory_usage"@.len());
    assert("network_out"@.len() != "cpu_usage"@.len());
    assert("network_out"@.len() != "memory_usage"@.len());
    assert("network_out"@.len() != "network_in"@.len());
    assert("disk_read"@[0] != "cpu_usage"@[0]);
    assert("disk_read"@.len() != "memory_usage"@.len());
    assert("disk_read"@.len() != "network_in"@.len());
    assert("disk_read"@.len() != "network_out"@.len());
    assert("disk_write"@.len() != "cpu_usage"@.len());
    assert("disk_write"@.len() != "memory_usage"@.len());
    assert("disk_write"@[0] != "network_in"@[0]);
    assert("disk_write"@.len() != "network_out"@.len());
    assert("disk_write"@.len() != "disk_read"@.len());
}

/// A stored severity reads back as the severity that was written.
pub proof fn lemma_severity_round_trip(v: Severity)
    ensures
        parse_severity(severity_name(v)) == Some(v),
{
    reveal_strlit("critical");
    reveal_strlit("warning");
    reveal_strlit("info");
    assert("warning"@.len() != "critical"@.len());
    assert("info"@.len() != "critical"@.len());
    assert("info"@.len() != "warning"@.len());
}

/// Every name that reads back reads back from exactly its own encoding.
pub proof fn lemma_parsed_names_encode_back(s: Seq<char>)
    ensures
        parse_resource_type(s) matches Some(t) ==> resource_type_name(t) == s,
        parse_metric_type(s) matches Some(t) ==> metric_type_name(t) == s,
        parse_severity(s) matches Some(v) ==> severity_name(v) == s,
{
}

} // verus!
