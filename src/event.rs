use vstd::prelude::*;
use crate::graph::str_eq;
use crate::payload::{
    field_index, find_field, opt_raw, opt_value, read_opt_str, read_opt_str_spec, read_str,
    read_str_spec, read_u32, read_u32_spec, read_u64, read_u64_spec, DecodeError, RawEvent,
    RawField, RawValue,
};

verus! {

/// A process was started by a parent process.
#[derive(Clone, Debug)]
pub struct ProcessStart {
    pub process_id: u64,
    pub parent_process_id: u64,
    pub name: String,
    pub hostname: String,
    pub arguments: String,
    pub timestamp: u64,
    pub exe: Option<String>,
    pub eventname: String,
}

pub open spec fn decode_process_start_spec(
    s: Seq<(Seq<char>,
    RawValue)>,
) -> Result<ProcessStart, DecodeError> {
    let process_id = read_u64_spec(s, "process_id"@);
    let parent_process_id = read_u64_spec(s, "parent_process_id"@);
    let name = read_str_spec(s, "name"@);
    let hostname = read_str_spec(s, "hostname"@);
    let arguments = read_str_spec(s, "arguments"@);
    let timestamp = read_u64_spec(s, "timestamp"@);
    let exe = read_opt_str_spec(s, "exe"@);
    let eventname = read_str_spec(s, "eventname"@);
    if process_id is Ok
        && parent_process_id is Ok
        && name is Ok
        && hostname is Ok
        && arguments is Ok
        && timestamp is Ok
        && exe is Ok
        && eventname is Ok
    {
        Ok(ProcessStart {
            process_id: process_id->Ok_0,
            parent_process_id: parent_process_id->Ok_0,
            name: name->Ok_0,
            hostname: hostname->Ok_0,
            arguments: arguments->Ok_0,
            timestamp: timestamp->Ok_0,
            exe: exe->Ok_0,
            eventname: eventname->Ok_0,
        })
    } else {
        Err(DecodeError::SchemaMismatch)
    }
}

pub fn decode_process_start(f: &Vec<RawField>) -> (r: Result<ProcessStart, DecodeError>)
    ensures
        r == decode_process_start_spec(f@.map_values(|x: RawField| (x.name@, x.value))),
{
    let process_id = match read_u64(f, "process_id") {
        Ok(v) => v,
        Err(e) => return Err(e),
    };
    let parent_process_id = match read_u64(f, "parent_process_id") {
        Ok(v) => v,
        Err(e) => return Err(e),
    };
    let name = match read_str(f, "name") {
        Ok(v) => v,
        Err(e) => return Err(e),
    };
    let hostname = match read_str(f, "hostname") {
        Ok(v) => v,
        Err(e) => return Err(e),
    };
    let arguments = match read_str(f, "arguments") {
        Ok(v) => v,
        Err(e) => return Err(e),
    };
    let timestamp = match read_u64(f, "timestamp") {
        Ok(v) => v,
        Err(e) => return Err(e),
    };
    let exe = match read_opt_str(f, "exe") {
        Ok(v) => v,
        Err(e) => return Err(e),
    };
    let eventname = match read_str(f, "eventname") {
        Ok(v) => v,
        Err(e) => return Err(e),
    };
    Ok(ProcessStart {
        process_id,
        parent_process_id,
        name,
        hostname,
        arguments,
        timestamp,
        exe,
        eventname,
    })
}

/// The fields that encode a `ProcessStart`, in order.
pub open spec fn wire_process_start(e: ProcessStart) -> Seq<(Seq<char>, RawValue)> {
    seq![
        ("process_id"@, RawValue::UInt(e.process_id)),
        ("parent_process_id"@, RawValue::UInt(e.parent_process_id)),
        ("name"@, RawValue::Str(e.name)),
        ("hostname"@, RawValue::Str(e.hostname)),
        ("arguments"@, RawValue::Str(e.arguments)),
        ("timestamp"@, RawValue::UInt(e.timestamp)),
        ("exe"@, opt_value(e.exe)),
        ("eventname"@, RawValue::Str(e.eventname)),
    ]
}

pub fn encode_process_start(e: &ProcessStart) -> (r: Vec<RawField>)
    ensures
        r@.map_values(|x: RawField| (x.name@, x.value)) == wire_process_start(*e),
{
    let mut r: Vec<RawField> = Vec::new();
    r.push(RawField { name: "process_id".to_owned(), value: RawValue::UInt(e.process_id) });
    r.push(RawField {
        name: "parent_process_id".to_owned(),
        value: RawValue::UInt(e.parent_process_id),
    });
    r.push(RawField { name: "name".to_owned(), value: RawValue::Str(e.name.clone()) });
    r.push(RawField { name: "hostname".to_owned(), value: RawValue::Str(e.hostname.clone()) });
    r.push(RawField { name: "arguments".to_owned(), value: RawValue::Str(e.arguments.clone()) });
    r.push(RawField { name: "timestamp".to_owned(), value: RawValue::UInt(e.timestamp) });
    r.push(RawField { name: "exe".to_owned(), value: opt_raw(&e.exe) });
    r.push(RawField { name: "eventname".to_owned(), value: RawValue::Str(e.eventname.clone()) });
    assert(r@.map_values(|x: RawField| (x.name@, x.value)) =~= wire_process_start(*e));
    r
}

/// A process ended.
#[derive(Clone, Debug)]
pub struct ProcessStop {
    pub process_id: u64,
    pub name: String,
    pub hostname: String,
    pub timestamp: u64,
    pub eventname: String,
}

pub open spec fn decode_process_stop_spec(
    s: Seq<(Seq<char>,
    RawValue)>,
) -> Result<ProcessStop, DecodeError> {
    let process_id = read_u64_spec(s, "process_id"@);
    let name = read_str_spec(s, "name"@);
    let hostname = read_str_spec(s, "hostname"@);
    let timestamp = read_u64_spec(s, "timestamp"@);
    let eventname = read_str_spec(s, "eventname"@);
    if process_id is Ok && name is Ok && hostname is Ok && timestamp is Ok && eventname is Ok {
        Ok(ProcessStop {
            process_id: process_id->Ok_0,
            name: name->Ok_0,
            hostname: hostname->Ok_0,
            timestamp: timestamp->Ok_0,
            eventname: eventname->Ok_0,
        })
    } else {
        Err(DecodeError::SchemaMismatch)
    }
}

pub fn decode_process_stop(f: &Vec<RawField>) -> (r: Result<ProcessStop, DecodeError>)
    ensures
        r == decode_process_stop_spec(f@.map_values(|x: RawField| (x.name@, x.value))),
{
    let process_id = match read_u64(f, "process_id") {
        Ok(v) => v,
        Err(e) => return Err(e),
    };
    let name = match read_str(f, "name") {
        Ok(v) => v,
        Err(e) => return Err(e),
    };
    let hostname = match read_str(f, "hostname") {
        Ok(v) => v,
        Err(e) => return Err(e),
    };
    let timestamp = match read_u64(f, "timestamp") {
        Ok(v) => v,
        Err(e) => return Err(e),
    };
    let eventname = match read_str(f, "eventname") {
        Ok(v) => v,
        Err(e) => return Err(e),
    };
    Ok(ProcessStop { process_id, name, hostname, timestamp, eventname })
}

/// The fields that encode a `ProcessStop`, in order.
pub open spec fn wire_process_stop(e: ProcessStop) -> Seq<(Seq<char>, RawValue)> {
    seq![
        ("process_id"@, RawValue::UInt(e.process_id)),
        ("name"@, RawValue::Str(e.name)),
        ("hostname"@, RawValue::Str(e.hostname)),
        ("timestamp"@, RawValue::UInt(e.timestamp)),
        ("eventname"@, RawValue::Str(e.eventname)),
    ]
}

pub fn encode_process_stop(e: &ProcessStop) -> (r: Vec<RawField>)
    ensures
        r@.map_values(|x: RawField| (x.name@, x.value)) == wire_process_stop(*e),
{
    let mut r: Vec<RawField> = Vec::new();
    r.push(RawField { name: "process_id".to_owned(), value: RawValue::UInt(e.process_id) });
    r.push(RawField { name: "name".to_owned(), value: RawValue::Str(e.name.clone()) });
    r.push(RawField { name: "hostname".to_owned(), value: RawValue::Str(e.hostname.clone()) });
    r.push(RawField { name: "timestamp".to_owned(), value: RawValue::UInt(e.timestamp) });
    r.push(RawField { name: "eventname".to_owned(), value: RawValue::Str(e.eventname.clone()) });
    assert(r@.map_values(|x: RawField| (x.name@, x.value)) =~= wire_process_stop(*e));
    r
}

/// A process created a file.
#[derive(Clone, Debug)]
pub struct FileCreate {
    pub creator_process_id: u64,
    pub creator_process_name: Option<String>,
    pub path: String,
    pub hostname: String,
    pub timestamp: u64,
    pub eventname: String,
}

pub open spec fn decode_file_create_spec(
    s: Seq<(Seq<char>,
    RawValue)>,
) -> Result<FileCreate, DecodeError> {
    let creator_process_id = read_u64_spec(s, "creator_process_id"@);
    let creator_process_name = read_opt_str_spec(s, "creator_process_name"@);
    let path = read_str_spec(s, "path"@);
    let hostname = read_str_spec(s, "hostname"@);
    let timestamp = read_u64_spec(s, "timestamp"@);
    let eventname = read_str_spec(s, "eventname"@);
    if creator_process_id is Ok
        && creator_process_name is Ok
        && path is Ok
        && hostname is Ok
        && timestamp is Ok
        && eventname is Ok
    {
        Ok(FileCreate {
            creator_process_id: creator_process_id->Ok_0,
            creator_process_name: creator_process_name->Ok_0,
            path: path->Ok_0,
            hostname: hostname->Ok_0,
            timestamp: timestamp->Ok_0,
            eventname: eventname->Ok_0,
        })
    } else {
        Err(DecodeError::SchemaMismatch)
    }
}

pub fn decode_file_create(f: &Vec<RawField>) -> (r: Result<FileCreate, DecodeError>)
    ensures
        r == decode_file_create_spec(f@.map_values(|x: RawField| (x.name@, x.value))),
{
    let creator_process_id = match read_u64(f, "creator_process_id") {
        Ok(v) => v,
        Err(e) => return Err(e),
    };
    let creator_process_name = match read_opt_str(f, "creator_process_name") {
        Ok(v) => v,
        Err(e) => return Err(e),
    };
    let path = match read_str(f, "path") {
        Ok(v) => v,
        Err(e) => return Err(e),
    };
    let hostname = match read_str(f, "hostname") {
        Ok(v) => v,
        Err(e) => return Err(e),
    };
    let timestamp = match read_u64(f, "timestamp") {
        Ok(v) => v,
        Err(e) => return Err(e),
    };
    let eventname = match read_str(f, "eventname") {
        Ok(v) => v,
        Err(e) => return Err(e),
    };
    Ok(FileCreate {
        creator_process_id,
        creator_process_name,
        path,
        hostname,
        timestamp,
        eventname,
    })
}

/// The fields that encode a `FileCreate`, in order.
pub open spec fn wire_file_create(e: FileCreate) -> Seq<(Seq<char>, RawValue)> {
    seq![
        ("creator_process_id"@, RawValue::UInt(e.creator_process_id)),
        ("creator_process_name"@, opt_value(e.creator_process_name)),
        ("path"@, RawValue::Str(e.path)),
        ("hostname"@, RawValue::Str(e.hostname)),
        ("timestamp"@, RawValue::UInt(e.timestamp)),
        ("eventname"@, RawValue::Str(e.eventname)),
    ]
}

pub fn encode_file_create(e: &FileCreate) -> (r: Vec<RawField>)
    ensures
        r@.map_values(|x: RawField| (x.name@, x.value)) == wire_file_create(*e),
{
    let mut r: Vec<RawField> = Vec::new();
    r.push(RawField {
        name: "creator_process_id".to_owned(),
        value: RawValue::UInt(e.creator_process_id),
    });
    r.push(RawField {
        name: "creator_process_name".to_owned(),
        value: opt_raw(&e.creator_process_name),
    });
    r.push(RawField { name: "path".to_owned(), value: RawValue::Str(e.path.clone()) });
    r.push(RawField { name: "hostname".to_owned(), value: RawValue::Str(e.hostname.clone()) });
    r.push(RawField { name: "timestamp".to_owned(), value: RawValue::UInt(e.timestamp) });
    r.push(RawField { name: "eventname".to_owned(), value: RawValue::Str(e.eventname.clone()) });
    assert(r@.map_values(|x: RawField| (x.name@, x.value)) =~= wire_file_create(*e));
    r
}

/// A process deleted a file.
#[derive(Clone, Debug)]
pub struct FileDelete {
    pub deleter_process_id: u64,
    pub deleter_process_name: Option<String>,
    pub path: String,
    pub hostname: String,
    pub timestamp: u64,
    pub eventname: String,
}

pub open spec fn decode_file_delete_spec(
    s: Seq<(Seq<char>,
    RawValue)>,
) -> Result<FileDelete, DecodeError> {
    let deleter_process_id = read_u64_spec(s, "deleter_process_id"@);
    let deleter_process_name = read_opt_str_spec(s, "deleter_process_name"@);
    let path = read_str_spec(s, "path"@);
    let hostname = read_str_spec(s, "hostname"@);
    let timestamp = read_u64_spec(s, "timestamp"@);
    let eventname = read_str_spec(s, "eventname"@);
    if deleter_process_id is Ok
        && deleter_process_name is Ok
        && path is Ok
        && hostname is Ok
        && timestamp is Ok
        && eventname is Ok
    {
        Ok(FileDelete {
            deleter_process_id: deleter_process_id->Ok_0,
            deleter_process_name: deleter_process_name->Ok_0,
            path: path->Ok_0,
            hostname: hostname->Ok_0,
            timestamp: timestamp->Ok_0,
            eventname: eventname->Ok_0,
        })
    } else {
        Err(DecodeError::SchemaMismatch)
    }
}

pub fn decode_file_delete(f: &Vec<RawField>) -> (r: Result<FileDelete, DecodeError>)
    ensures
        r == decode_file_delete_spec(f@.map_values(|x: RawField| (x.name@, x.value))),
{
    let deleter_process_id = match read_u64(f, "deleter_process_id") {
        Ok(v) => v,
        Err(e) => return Err(e),
    };
    let deleter_process_name = match read_opt_str(f, "deleter_process_name") {
        Ok(v) => v,
        Err(e) => return Err(e),
    };
    let path = match read_str(f, "path") {
        Ok(v) => v,
        Err(e) => return Err(e),
    };
    let hostname = match read_str(f, "hostname") {
        Ok(v) => v,
        Err(e) => return Err(e),
    };
    let timestamp = match read_u64(f, "timestamp") {
        Ok(v) => v,
        Err(e) => return Err(e),
    };
    let eventname = match read_str(f, "eventname") {
        Ok(v) => v,
        Err(e) => return Err(e),
    };
    Ok(FileDelete {
        deleter_process_id,
        deleter_process_name,
        path,
        hostname,
        timestamp,
        eventname,
    })
}

/// The fields that encode a `FileDelete`, in order.
pub open spec fn wire_file_delete(e: FileDelete) -> Seq<(Seq<char>, RawValue)> {
    seq![
        ("deleter_process_id"@, RawValue::UInt(e.deleter_process_id)),
        ("deleter_process_name"@, opt_value(e.deleter_process_name)),
        ("path"@, RawValue::Str(e.path)),
        ("hostname"@, RawValue::Str(e.hostname)),
        ("timestamp"@, RawValue::UInt(e.timestamp)),
        ("eventname"@, RawValue::Str(e.eventname)),
    ]
}

pub fn encode_file_delete(e: &FileDelete) -> (r: Vec<RawField>)
    ensures
        r@.map_values(|x: RawField| (x.name@, x.value)) == wire_file_delete(*e),
{
    let mut r: Vec<RawField> = Vec::new();
    r.push(RawField {
        name: "deleter_process_id".to_owned(),
        value: RawValue::UInt(e.deleter_process_id),
    });
    r.push(RawField {
        name: "deleter_process_name".to_owned(),
        value: opt_raw(&e.deleter_process_name),
    });
    r.push(RawField { name: "path".to_owned(), value: RawValue::Str(e.path.clone()) });
    r.push(RawField { name: "hostname".to_owned(), value: RawValue::Str(e.hostname.clone()) });
    r.push(RawField { name: "timestamp".to_owned(), value: RawValue::UInt(e.timestamp) });
    r.push(RawField { name: "eventname".to_owned(), value: RawValue::Str(e.eventname.clone()) });
    assert(r@.map_values(|x: RawField| (x.name@, x.value)) =~= wire_file_delete(*e));
    r
}

/// A process read a file.
#[derive(Clone, Debug)]
pub struct FileRead {
    pub reader_process_id: u64,
    pub reader_process_name: Option<String>,
    pub path: String,
    pub hostname: String,
    pub timestamp: u64,
    pub eventname: String,
}

pub open spec fn decode_file_read_spec(
    s: Seq<(Seq<char>,
    RawValue)>,
) -> Result<FileRead, DecodeError> {
    let reader_process_id = read_u64_spec(s, "reader_process_id"@);
    let reader_process_name = read_opt_str_spec(s, "reader_process_name"@);
    let path = read_str_spec(s, "path"@);
    let hostname = read_str_spec(s, "hostname"@);
    let timestamp = read_u64_spec(s, "timestamp"@);
    let eventname = read_str_spec(s, "eventname"@);
    if reader_process_id is Ok
        && reader_process_name is Ok
        && path is Ok
        && hostname is Ok
        && timestamp is Ok
        && eventname is Ok
    {
        Ok(FileRead {
            reader_process_id: reader_process_id->Ok_0,
            reader_process_name: reader_process_name->Ok_0,
            path: path->Ok_0,
            hostname: hostname->Ok_0,
            timestamp: timestamp->Ok_0,
            eventname: eventname->Ok_0,
        })
    } else {
        Err(DecodeError::SchemaMismatch)
    }
}

pub fn decode_file_read(f: &Vec<RawField>) -> (r: Result<FileRead, DecodeError>)
    ensures
        r == decode_file_read_spec(f@.map_values(|x: RawField| (x.name@, x.value))),
{
    let reader_process_id = match read_u64(f, "reader_process_id") {
        Ok(v) => v,
        Err(e) => return Err(e),
    };
    let reader_process_name = match read_opt_str(f, "reader_process_name") {
        Ok(v) => v,
        Err(e) => return Err(e),
    };
    let path = match read_str(f, "path") {
        Ok(v) => v,
        Err(e) => return Err(e),
    };
    let hostname = match read_str(f, "hostname") {
        Ok(v) => v,
        Err(e) => return Err(e),
    };
    let timestamp = match read_u64(f, "timestamp") {
        Ok(v) => v,
        Err(e) => return Err(e),
    };
    let eventname = match read_str(f, "eventname") {
        Ok(v) => v,
        Err(e) => return Err(e),
    };
    Ok(FileRead { reader_process_id, reader_process_name, path, hostname, timestamp, eventname })
}

/// The fields that encode a `FileRead`, in order.
pub open spec fn wire_file_read(e: FileRead) -> Seq<(Seq<char>, RawValue)> {
    seq![
        ("reader_process_id"@, RawValue::UInt(e.reader_process_id)),
        ("reader_process_name"@, opt_value(e.reader_process_name)),
        ("path"@, RawValue::Str(e.path)),
        ("hostname"@, RawValue::Str(e.hostname)),
        ("timestamp"@, RawValue::UInt(e.timestamp)),
        ("eventname"@, RawValue::Str(e.eventname)),
    ]
}

pub fn encode_file_read(e: &FileRead) -> (r: Vec<RawField>)
    ensures
        r@.map_values(|x: RawField| (x.name@, x.value)) == wire_file_read(*e),
{
    let mut r: Vec<RawField> = Vec::new();
    r.push(RawField {
        name: "reader_process_id".to_owned(),
        value: RawValue::UInt(e.reader_process_id),
    });
    r.push(RawField {
        name: "reader_process_name".to_owned(),
        value: opt_raw(&e.reader_process_name),
    });
    r.push(RawField { name: "path".to_owned(), value: RawValue::Str(e.path.clone()) });
    r.push(RawField { name: "hostname".to_owned(), value: RawValue::Str(e.hostname.clone()) });
    r.push(RawField { name: "timestamp".to_owned(), value: RawValue::UInt(e.timestamp) });
    r.push(RawField { name: "eventname".to_owned(), value: RawValue::Str(e.eventname.clone()) });
    assert(r@.map_values(|x: RawField| (x.name@, x.value)) =~= wire_file_read(*e));
    r
}

/// A process wrote a file.
#[derive(Clone, Debug)]
pub struct FileWrite {
    pub writer_pid: u64,
    pub writer_process_name: Option<String>,
    pub path: String,
    pub hostname: String,
    pub timestamp: u64,
    pub eventname: String,
}

pub open spec fn decode_file_write_spec(
    s: Seq<(Seq<char>,
    RawValue)>,
) -> Result<FileWrite, DecodeError> {
    let writer_pid = read_u64_spec(s, "writer_pid"@);
    let writer_process_name = read_opt_str_spec(s, "writer_process_name"@);
    let path = read_str_spec(s, "path"@);
    let hostname = read_str_spec(s, "hostname"@);
    let timestamp = read_u64_spec(s, "timestamp"@);
    let eventname = read_str_spec(s, "eventname"@);
    if writer_pid is Ok
        && writer_process_name is Ok
        && path is Ok
        && hostname is Ok
        && timestamp is Ok
        && eventname is Ok
    {
        Ok(FileWrite {
            writer_pid: writer_pid->Ok_0,
            writer_process_name: writer_process_name->Ok_0,
            path: path->Ok_0,
            hostname: hostname->Ok_0,
            timestamp: timestamp->Ok_0,
            eventname: eventname->Ok_0,
        })
    } else {
        Err(DecodeError::SchemaMismatch)
    }
}

pub fn decode_file_write(f: &Vec<RawField>) -> (r: Result<FileWrite, DecodeError>)
    ensures
        r == decode_file_write_spec(f@.map_values(|x: RawField| (x.name@, x.value))),
{
    let writer_pid = match read_u64(f, "writer_pid") {
        Ok(v) => v,
        Err(e) => return Err(e),
    };
    let writer_process_name = match read_opt_str(f, "writer_process_name") {
        Ok(v) => v,
        Err(e) => return Err(e),
    };
    let path = match read_str(f, "path") {
        Ok(v) => v,
        Err(e) => return Err(e),
    };
    let hostname = match read_str(f, "hostname") {
        Ok(v) => v,
        Err(e) => return Err(e),
    };
    let timestamp = match read_u64(f, "timestamp") {
        Ok(v) => v,
        Err(e) => return Err(e),
    };
    let eventname = match read_str(f, "eventname") {
        Ok(v) => v,
        Err(e) => return Err(e),
    };
    Ok(FileWrite { writer_pid, writer_process_name, path, hostname, timestamp, eventname })
}

/// The fields that encode a `FileWrite`, in order.
pub open spec fn wire_file_write(e: FileWrite) -> Seq<(Seq<char>, RawValue)> {
    seq![
        ("writer_pid"@, RawValue::UInt(e.writer_pid)),
        ("writer_process_name"@, opt_value(e.writer_process_name)),
        ("path"@, RawValue::Str(e.path)),
        ("hostname"@, RawValue::Str(e.hostname)),
        ("timestamp"@, RawValue::UInt(e.timestamp)),
        ("eventname"@, RawValue::Str(e.eventname)),
    ]
}

pub fn encode_file_write(e: &FileWrite) -> (r: Vec<RawField>)
    ensures
        r@.map_values(|x: RawField| (x.name@, x.value)) == wire_file_write(*e),
{
    let mut r: Vec<RawField> = Vec::new();
    r.push(RawField { name: "writer_pid".to_owned(), value: RawValue::UInt(e.writer_pid) });
    r.push(RawField {
        name: "writer_process_name".to_owned(),
        value: opt_raw(&e.writer_process_name),
    });
    r.push(RawField { name: "path".to_owned(), value: RawValue::Str(e.path.clone()) });
    r.push(RawField { name: "hostname".to_owned(), value: RawValue::Str(e.hostname.clone()) });
    r.push(RawField { name: "timestamp".to_owned(), value: RawValue::UInt(e.timestamp) });
    r.push(RawField { name: "eventname".to_owned(), value: RawValue::Str(e.eventname.clone()) });
    assert(r@.map_values(|x: RawField| (x.name@, x.value)) =~= wire_file_write(*e));
    r
}

/// A process opened a connection to a remote port.
#[derive(Clone, Debug)]
pub struct ProcessOutboundConnectionLog {
    pub pid: u64,
    pub protocol: String,
    pub src_port: u32,
    pub dst_port: u32,
    pub src_hostname: String,
    pub src_ip_addr: String,
    pub dst_ip_addr: String,
    pub timestamp: u64,
    pub eventname: String,
}

pub open spec fn decode_outbound_spec(
    s: Seq<(Seq<char>,
    RawValue)>,
) -> Result<ProcessOutboundConnectionLog, DecodeError> {
    let pid = read_u64_spec(s, "pid"@);
    let protocol = read_str_spec(s, "protocol"@);
    let src_port = read_u32_spec(s, "src_port"@);
    let dst_port = read_u32_spec(s, "dst_port"@);
    let src_hostname = read_str_spec(s, "src_hostname"@);
    let src_ip_addr = read_str_spec(s, "src_ip_addr"@);
    let dst_ip_addr = read_str_spec(s, "dst_ip_addr"@);
    let timestamp = read_u64_spec(s, "timestamp"@);
    let eventname = read_str_spec(s, "eventname"@);
    if pid is Ok
        && protocol is Ok
        && src_port is Ok
        && dst_port is Ok
        && src_hostname is Ok
        && src_ip_addr is Ok
        && dst_ip_addr is Ok
        && timestamp is Ok
        && eventname is Ok
    {
        Ok(ProcessOutboundConnectionLog {
            pid: pid->Ok_0,
            protocol: protocol->Ok_0,
            src_port: src_port->Ok_0,
            dst_port: dst_port->Ok_0,
            src_hostname: src_hostname->Ok_0,
            src_ip_addr: src_ip_addr->Ok_0,
            dst_ip_addr: dst_ip_addr->Ok_0,
            timestamp: timestamp->Ok_0,
            eventname: eventname->Ok_0,
        })
    } else {
        Err(DecodeError::SchemaMismatch)
    }
}

pub fn decode_outbound(f: &Vec<RawField>) -> (r: Result<ProcessOutboundConnectionLog, DecodeError>)
    ensures
        r == decode_outbound_spec(f@.map_values(|x: RawField| (x.name@, x.value))),
{
    let pid = match read_u64(f, "pid") {
        Ok(v) => v,
        Err(e) => return Err(e),
    };
    let protocol = match read_str(f, "protocol") {
        Ok(v) => v,
        Err(e) => return Err(e),
    };
    let src_port = match read_u32(f, "src_port") {
        Ok(v) => v,
        Err(e) => return Err(e),
    };
    let dst_port = match read_u32(f, "dst_port") {
        Ok(v) => v,
        Err(e) => return Err(e),
    };
    let src_hostname = match read_str(f, "src_hostname") {
        Ok(v) => v,
        Err(e) => return Err(e),
    };
    let src_ip_addr = match read_str(f, "src_ip_addr") {
        Ok(v) => v,
        Err(e) => return Err(e),
    };
    let dst_ip_addr = match read_str(f, "dst_ip_addr") {
        Ok(v) => v,
        Err(e) => return Err(e),
    };
    let timestamp = match read_u64(f, "timestamp") {
        Ok(v) => v,
        Err(e) => return Err(e),
    };
    let eventname = match read_str(f, "eventname") {
        Ok(v) => v,
        Err(e) => return Err(e),
    };
    Ok(ProcessOutboundConnectionLog {
        pid,
        protocol,
        src_port,
        dst_port,
        src_hostname,
        src_ip_addr,
        dst_ip_addr,
        timestamp,
        eventname,
    })
}

/// The fields that encode a `ProcessOutboundConnectionLog`, in order.
pub open spec fn wire_outbound(e: ProcessOutboundConnectionLog) -> Seq<(Seq<char>, RawValue)> {
    seq![
        ("pid"@, RawValue::UInt(e.pid)),
        ("protocol"@, RawValue::Str(e.protocol)),
        ("src_port"@, RawValue::UInt(e.src_port as u64)),
        ("dst_port"@, RawValue::UInt(e.dst_port as u64)),
        ("src_hostname"@, RawValue::Str(e.src_hostname)),
        ("src_ip_addr"@, RawValue::Str(e.src_ip_addr)),
        ("dst_ip_addr"@, RawValue::Str(e.dst_ip_addr)),
        ("timestamp"@, RawValue::UInt(e.timestamp)),
        ("eventname"@, RawValue::Str(e.eventname)),
    ]
}

pub fn encode_outbound(e: &ProcessOutboundConnectionLog) -> (r: Vec<RawField>)
    ensures
        r@.map_values(|x: RawField| (x.name@, x.value)) == wire_outbound(*e),
{
    let mut r: Vec<RawField> = Vec::new();
    r.push(RawField { name: "pid".to_owned(), value: RawValue::UInt(e.pid) });
    r.push(RawField { name: "protocol".to_owned(), value: RawValue::Str(e.protocol.clone()) });
    r.push(RawField { name: "src_port".to_owned(), value: RawValue::UInt(e.src_port as u64) });
    r.push(RawField { name: "dst_port".to_owned(), value: RawValue::UInt(e.dst_port as u64) });
    r.push(RawField {
        name: "src_hostname".to_owned(),
        value: RawValue::Str(e.src_hostname.clone()),
    });
    r.push(RawField {
        name: "src_ip_addr".to_owned(),
        value: RawValue::Str(e.src_ip_addr.clone()),
    });
    r.push(RawField {
        name: "dst_ip_addr".to_owned(),
        value: RawValue::Str(e.dst_ip_addr.clone()),
    });
    r.push(RawField { name: "timestamp".to_owned(), value: RawValue::UInt(e.timestamp) });
    r.push(RawField { name: "eventname".to_owned(), value: RawValue::Str(e.eventname.clone()) });
    assert(r@.map_values(|x: RawField| (x.name@, x.value)) =~= wire_outbound(*e));
    r
}

/// A process received a connection; `src` is the side the connection comes from.
#[derive(Clone, Debug)]
pub struct ProcessInboundConnectionLog {
    pub pid: u64,
    pub src_ip_addr: String,
    pub src_port: u32,
    pub dst_port: u32,
    pub dst_hostname: String,
    pub dst_ip_addr: String,
    pub protocol: String,
    pub timestamp: u64,
    pub eventname: String,
}

pub open spec fn decode_inbound_spec(
    s: Seq<(Seq<char>,
    RawValue)>,
) -> Result<ProcessInboundConnectionLog, DecodeError> {
    let pid = read_u64_spec(s, "pid"@);
    let src_ip_addr = read_str_spec(s, "src_ip_addr"@);
    let src_port = read_u32_spec(s, "src_port"@);
    let dst_port = read_u32_spec(s, "dst_port"@);
    let dst_hostname = read_str_spec(s, "dst_hostname"@);
    let dst_ip_addr = read_str_spec(s, "dst_ip_addr"@);
    let protocol = read_str_spec(s, "protocol"@);
    let timestamp = read_u64_spec(s, "timestamp"@);
    let eventname = read_str_spec(s, "eventname"@);
    if pid is Ok
        && src_ip_addr is Ok
        && src_port is Ok
        && dst_port is Ok
        && dst_hostname is Ok
        && dst_ip_addr is Ok
        && protocol is Ok
        && timestamp is Ok
        && eventname is Ok
    {
        Ok(ProcessInboundConnectionLog {
            pid: pid->Ok_0,
            src_ip_addr: src_ip_addr->Ok_0,
            src_port: src_port->Ok_0,
            dst_port: dst_port->Ok_0,
            dst_hostname: dst_hostname->Ok_0,
            dst_ip_addr: dst_ip_addr->Ok_0,
            protocol: protocol->Ok_0,
            timestamp: timestamp->Ok_0,
            eventname: eventname->Ok_0,
        })
    } else {
        Err(DecodeError::SchemaMismatch)
    }
}

pub fn decode_inbound(f: &Vec<RawField>) -> (r: Result<ProcessInboundConnectionLog, DecodeError>)
    ensures
        r == decode_inbound_spec(f@.map_values(|x: RawField| (x.name@, x.value))),
{
    let pid = match read_u64(f, "pid") {
        Ok(v) => v,
        Err(e) => return Err(e),
    };
    let src_ip_addr = match read_str(f, "src_ip_addr") {
        Ok(v) => v,
        Err(e) => return Err(e),
    };
    let src_port = match read_u32(f, "src_port") {
        Ok(v) => v,
        Err(e) => return Err(e),
    };
    let dst_port = match read_u32(f, "dst_port") {
        Ok(v) => v,
        Err(e) => return Err(e),
    };
    let dst_hostname = match read_str(f, "dst_hostname") {
        Ok(v) => v,
        Err(e) => return Err(e),
    };
    let dst_ip_addr = match read_str(f, "dst_ip_addr") {
        Ok(v) => v,
        Err(e) => return Err(e),
    };
    let protocol = match read_str(f, "protocol") {
        Ok(v) => v,
        Err(e) => return Err(e),
    };
    let timestamp = match read_u64(f, "timestamp") {
        Ok(v) => v,
        Err(e) => return Err(e),
    };
    let eventname = match read_str(f, "eventname") {
        Ok(v) => v,
        Err(e) => return Err(e),
    };
    Ok(ProcessInboundConnectionLog {
        pid,
        src_ip_addr,
        src_port,
        dst_port,
        dst_hostname,
        dst_ip_addr,
        protocol,
        timestamp,
        eventname,
    })
}

/// The fields that encode a `ProcessInboundConnectionLog`, in order.
pub open spec fn wire_inbound(e: ProcessInboundConnectionLog) -> Seq<(Seq<char>, RawValue)> {
    seq![
        ("pid"@, RawValue::UInt(e.pid)),
        ("src_ip_addr"@, RawValue::Str(e.src_ip_addr)),
        ("src_port"@, RawValue::UInt(e.src_port as u64)),
        ("dst_port"@, RawValue::UInt(e.dst_port as u64)),
        ("dst_hostname"@, RawValue::Str(e.dst_hostname)),
        ("dst_ip_addr"@, RawValue::Str(e.dst_ip_addr)),
        ("protocol"@, RawValue::Str(e.protocol)),
        ("timestamp"@, RawValue::UInt(e.timestamp)),
        ("eventname"@, RawValue::Str(e.eventname)),
    ]
}

pub fn encode_inbound(e: &ProcessInboundConnectionLog) -> (r: Vec<RawField>)
    ensures
        r@.map_values(|x: RawField| (x.name@, x.value)) == wire_inbound(*e),
{
    let mut r: Vec<RawField> = Vec::new();
    r.push(RawField { name: "pid".to_owned(), value: RawValue::UInt(e.pid) });
    r.push(RawField {
        name: "src_ip_addr".to_owned(),
        value: RawValue::Str(e.src_ip_addr.clone()),
    });
    r.push(RawField { name: "src_port".to_owned(), value: RawValue::UInt(e.src_port as u64) });
    r.push(RawField { name: "dst_port".to_owned(), value: RawValue::UInt(e.dst_port as u64) });
    r.push(RawField {
        name: "dst_hostname".to_owned(),
        value: RawValue::Str(e.dst_hostname.clone()),
    });
    r.push(RawField {
        name: "dst_ip_addr".to_owned(),
        value: RawValue::Str(e.dst_ip_addr.clone()),
    });
    r.push(RawField { name: "protocol".to_owned(), value: RawValue::Str(e.protocol.clone()) });
    r.push(RawField { name: "timestamp".to_owned(), value: RawValue::UInt(e.timestamp) });
    r.push(RawField { name: "eventname".to_owned(), value: RawValue::Str(e.eventname.clone()) });
    assert(r@.map_values(|x: RawField| (x.name@, x.value)) =~= wire_inbound(*e));
    r
}

/// A process bound a port.
#[derive(Clone, Debug)]
pub struct ProcessPortBindLog {
    pub pid: u64,
    pub bound_port: u64,
    pub hostname: String,
    pub timestamp: u64,
    pub eventname: String,
}

pub open spec fn decode_port_bind_spec(
    s: Seq<(Seq<char>,
    RawValue)>,
) -> Result<ProcessPortBindLog, DecodeError> {
    let pid = read_u64_spec(s, "pid"@);
    let bound_port = read_u64_spec(s, "bound_port"@);
    let hostname = read_str_spec(s, "hostname"@);
    let timestamp = read_u64_spec(s, "timestamp"@);
    let eventname = read_str_spec(s, "eventname"@);
    if pid is Ok && bound_port is Ok && hostname is Ok && timestamp is Ok && eventname is Ok {
        Ok(ProcessPortBindLog {
            pid: pid->Ok_0,
            bound_port: bound_port->Ok_0,
            hostname: hostname->Ok_0,
            timestamp: timestamp->Ok_0,
            eventname: eventname->Ok_0,
        })
    } else {
        Err(DecodeError::SchemaMismatch)
    }
}

pub fn decode_port_bind(f: &Vec<RawField>) -> (r: Result<ProcessPortBindLog, DecodeError>)
    ensures
        r == decode_port_bind_spec(f@.map_values(|x: RawField| (x.name@, x.value))),
{
    let pid = match read_u64(f, "pid") {
        Ok(v) => v,
        Err(e) => return Err(e),
    };
    let bound_port = match read_u64(f, "bound_port") {
        Ok(v) => v,
        Err(e) => return Err(e),
    };
    let hostname = match read_str(f, "hostname") {
        Ok(v) => v,
        Err(e) => return Err(e),
    };
    let timestamp = match read_u64(f, "timestamp") {
        Ok(v) => v,
        Err(e) => return Err(e),
    };
    let eventname = match read_str(f, "eventname") {
        Ok(v) => v,
        Err(e) => return Err(e),
    };
    Ok(ProcessPortBindLog { pid, bound_port, hostname, timestamp, eventname })
}

/// The fields that encode a `ProcessPortBindLog`, in order.
pub open spec fn wire_port_bind(e: ProcessPortBindLog) -> Seq<(Seq<char>, RawValue)> {
    seq![
        ("pid"@, RawValue::UInt(e.pid)),
        ("bound_port"@, RawValue::UInt(e.bound_port)),
        ("hostname"@, RawValue::Str(e.hostname)),
        ("timestamp"@, RawValue::UInt(e.timestamp)),
        ("eventname"@, RawValue::Str(e.eventname)),
    ]
}

pub fn encode_port_bind(e: &ProcessPortBindLog) -> (r: Vec<RawField>)
    ensures
        r@.map_values(|x: RawField| (x.name@, x.value)) == wire_port_bind(*e),
{
    let mut r: Vec<RawField> = Vec::new();
    r.push(RawField { name: "pid".to_owned(), value: RawValue::UInt(e.pid) });
    r.push(RawField { name: "bound_port".to_owned(), value: RawValue::UInt(e.bound_port) });
    r.push(RawField { name: "hostname".to_owned(), value: RawValue::Str(e.hostname.clone()) });
    r.push(RawField { name: "timestamp".to_owned(), value: RawValue::UInt(e.timestamp) });
    r.push(RawField { name: "eventname".to_owned(), value: RawValue::Str(e.eventname.clone()) });
    assert(r@.map_values(|x: RawField| (x.name@, x.value)) =~= wire_port_bind(*e));
    r
}

} // verus!

verus! {

/// A decoded event, one variant per kind.
#[derive(Clone, Debug)]
pub enum GenericEvent {
    ProcessStart(ProcessStart),
    ProcessStop(ProcessStop),
    FileCreate(FileCreate),
    FileDelete(FileDelete),
    FileRead(FileRead),
    FileWrite(FileWrite),
    ProcessOutboundConnectionLog(ProcessOutboundConnectionLog),
    ProcessInboundConnectionLog(ProcessInboundConnectionLog),
    ProcessPortBindLog(ProcessPortBindLog),
}

/// The discriminant that names a variant's kind.
pub open spec fn kind_name(e: GenericEvent) -> Seq<char> {
    match e {
        GenericEvent::ProcessStart(_) => "PROCESS_START"@,
        GenericEvent::ProcessStop(_) => "PROCESS_STOP"@,
        GenericEvent::FileCreate(_) => "FILE_CREATE"@,
        GenericEvent::FileDelete(_) => "FILE_DELETE"@,
        GenericEvent::FileRead(_) => "FILE_READ"@,
        GenericEvent::FileWrite(_) => "FILE_WRITE"@,
        GenericEvent::ProcessOutboundConnectionLog(_) => "OUTBOUND_TCP"@,
        GenericEvent::ProcessInboundConnectionLog(_) => "INBOUND_TCP"@,
        GenericEvent::ProcessPortBindLog(_) => "PROCESS_PORT_BIND"@,
    }
}

/// The payload fields that encode an event.
pub open spec fn wire(e: GenericEvent) -> Seq<(Seq<char>, RawValue)> {
    match e {
        GenericEvent::ProcessStart(x) => wire_process_start(x),
        GenericEvent::ProcessStop(x) => wire_process_stop(x),
        GenericEvent::FileCreate(x) => wire_file_create(x),
        GenericEvent::FileDelete(x) => wire_file_delete(x),
        GenericEvent::FileRead(x) => wire_file_read(x),
        GenericEvent::FileWrite(x) => wire_file_write(x),
        GenericEvent::ProcessOutboundConnectionLog(x) => wire_outbound(x),
        GenericEvent::ProcessInboundConnectionLog(x) => wire_inbound(x),
        GenericEvent::ProcessPortBindLog(x) => wire_port_bind(x),
    }
}

pub open spec fn eventname_of(e: GenericEvent) -> Seq<char> {
    match e {
        GenericEvent::ProcessStart(x) => x.eventname@,
        GenericEvent::ProcessStop(x) => x.eventname@,
        GenericEvent::FileCreate(x) => x.eventname@,
        GenericEvent::FileDelete(x) => x.eventname@,
        GenericEvent::FileRead(x) => x.eventname@,
        GenericEvent::FileWrite(x) => x.eventname@,
        GenericEvent::ProcessOutboundConnectionLog(x) => x.eventname@,
        GenericEvent::ProcessInboundConnectionLog(x) => x.eventname@,
        GenericEvent::ProcessPortBindLog(x) => x.eventname@,
    }
}

/// The decoding of a payload: its `eventname` field picks the kind, whose
/// fields are then read.
pub open spec fn decode_spec(s: Seq<(Seq<char>, RawValue)>) -> Result<GenericEvent, DecodeError> {
    match find_field(s, "eventname"@) {
        Some(RawValue::Str(k)) => {
            if k@ == "PROCESS_START"@ {
                match decode_process_start_spec(s) {
                    Ok(x) => Ok(GenericEvent::ProcessStart(x)),
                    Err(e) => Err(e),
                }
            } else if k@ == "PROCESS_STOP"@ {
                match decode_process_stop_spec(s) {
                    Ok(x) => Ok(GenericEvent::ProcessStop(x)),
                    Err(e) => Err(e),
                }
            } else if k@ == "FILE_CREATE"@ {
                match decode_file_create_spec(s) {
                    Ok(x) => Ok(GenericEvent::FileCreate(x)),
                    Err(e) => Err(e),
                }
            } else if k@ == "FILE_DELETE"@ {
                match decode_file_delete_spec(s) {
                    Ok(x) => Ok(GenericEvent::FileDelete(x)),
                    Err(e) => Err(e),
                }
            } else if k@ == "FILE_READ"@ {
                match decode_file_read_spec(s) {
                    Ok(x) => Ok(GenericEvent::FileRead(x)),
                    Err(e) => Err(e),
                }
            } else if k@ == "FILE_WRITE"@ {
                match decode_file_write_spec(s) {
                    Ok(x) => Ok(GenericEvent::FileWrite(x)),
                    Err(e) => Err(e),
                }
            } else if k@ == "OUTBOUND_TCP"@ {
                match decode_outbound_spec(s) {
                    Ok(x) => Ok(GenericEvent::ProcessOutboundConnectionLog(x)),
                    Err(e) => Err(e),
                }
            } else if k@ == "INBOUND_TCP"@ {
                match decode_inbound_spec(s) {
                    Ok(x) => Ok(GenericEvent::ProcessInboundConnectionLog(x)),
                    Err(e) => Err(e),
                }
            } else if k@ == "PROCESS_PORT_BIND"@ {
                match decode_port_bind_spec(s) {
                    Ok(x) => Ok(GenericEvent::ProcessPortBindLog(x)),
                    Err(e) => Err(e),
                }
            } else {
                Err(DecodeError::UnknownKind(k))
            }
        },
        _ => Err(DecodeError::MissingDiscriminant),
    }
}

impl GenericEvent {
    /// An event is well formed when its `eventname` is the discriminant of its kind.
    pub open spec fn wf(self) -> bool {
        eventname_of(self) == kind_name(self)
    }

    /// Classifies a payload by its `eventname` field and reads the fields of that kind.
    pub fn from_value(raw_log: &RawEvent) -> (r: Result<GenericEvent, DecodeError>)
        ensures
            r == decode_spec(raw_log@),
    {
        let f = &raw_log.fields;
        let k = match field_index(f, "eventname") {
            Some(i) => match &f[i].value {
                RawValue::Str(k) => k.clone(),
                _ => return Err(DecodeError::MissingDiscriminant),
            },
            None => return Err(DecodeError::MissingDiscriminant),
        };
        if str_eq(&k, &"PROCESS_START".to_owned()) {
            match decode_process_start(f) {
                Ok(x) => Ok(GenericEvent::ProcessStart(x)),
                Err(e) => Err(e),
            }
        } else if str_eq(&k, &"PROCESS_STOP".to_owned()) {
            match decode_process_stop(f) {
                Ok(x) => Ok(GenericEvent::ProcessStop(x)),
                Err(e) => Err(e),
            }
        } else if str_eq(&k, &"FILE_CREATE".to_owned()) {
            match decode_file_create(f) {
                Ok(x) => Ok(GenericEvent::FileCreate(x)),
                Err(e) => Err(e),
            }
        } else if str_eq(&k, &"FILE_DELETE".to_owned()) {
            match decode_file_delete(f) {
                Ok(x) => Ok(GenericEvent::FileDelete(x)),
                Err(e) => Err(e),
            }
        } else if str_eq(&k, &"FILE_READ".to_owned()) {
            match decode_file_read(f) {
                Ok(x) => Ok(GenericEvent::FileRead(x)),
                Err(e) => Err(e),
            }
        } else if str_eq(&k, &"FILE_WRITE".to_owned()) {
            match decode_file_write(f) {
                Ok(x) => Ok(GenericEvent::FileWrite(x)),
                Err(e) => Err(e),
            }
        } else if str_eq(&k, &"OUTBOUND_TCP".to_owned()) {
            match decode_outbound(f) {
                Ok(x) => Ok(GenericEvent::ProcessOutboundConnectionLog(x)),
                Err(e) => Err(e),
            }
        } else if str_eq(&k, &"INBOUND_TCP".to_owned()) {
            match decode_inbound(f) {
                Ok(x) => Ok(GenericEvent::ProcessInboundConnectionLog(x)),
                Err(e) => Err(e),
            }
        } else if str_eq(&k, &"PROCESS_PORT_BIND".to_owned()) {
            match decode_port_bind(f) {
                Ok(x) => Ok(GenericEvent::ProcessPortBindLog(x)),
                Err(e) => Err(e),
            }
        } else {
            Err(DecodeError::UnknownKind(k))
        }
    }

    /// The payload that encodes this event.
    pub fn to_value(&self) -> (r: RawEvent)
        ensures
            r@ == wire(*self),
    {
        let fields = match self {
            GenericEvent::ProcessStart(x) => encode_process_start(x),
            GenericEvent::ProcessStop(x) => encode_process_stop(x),
            GenericEvent::FileCreate(x) => encode_file_create(x),
            GenericEvent::FileDelete(x) => encode_file_delete(x),
            GenericEvent::FileRead(x) => encode_file_read(x),
            GenericEvent::FileWrite(x) => encode_file_write(x),
            GenericEvent::ProcessOutboundConnectionLog(x) => encode_outbound(x),
            GenericEvent::ProcessInboundConnectionLog(x) => encode_inbound(x),
            GenericEvent::ProcessPortBindLog(x) => encode_port_bind(x),
        };
        RawEvent { fields }
    }
}

} // verus!

verus! {

/// A field is found by its name when no earlier field has that name.
pub proof fn lemma_find_first(s: Seq<(Seq<char>, RawValue)>, i: int)
    requires
        0 <= i < s.len(),
        forall|j: int| 0 <= j < i ==> (#[trigger] s[j]).0 != s[i].0,
    ensures
        find_field(s, s[i].0) == Some(s[i].1),
    decreases i,
{
    if i > 0 {
        let t = s.subrange(1, s.len() as int);
        assert(s[0].0 != s[i].0);
        assert forall|j: int| 0 <= j < i - 1 implies (#[trigger] t[j]).0 != t[i - 1].0 by {
            assert(t[j] == s[j + 1]);
        }
        assert(t[i - 1] == s[i]);
        lemma_find_first(t, i - 1);
    }
}

proof fn lemma_kind_names_distinct()
    ensures
        "PROCESS_START"@ != "PROCESS_STOP"@,
        "PROCESS_START"@ != "FILE_CREATE"@,
        "PROCESS_START"@ != "FILE_DELETE"@,
        "PROCESS_START"@ != "FILE_READ"@,
        "PROCESS_START"@ != "FILE_WRITE"@,
        "PROCESS_START"@ != "OUTBOUND_TCP"@,
        "PROCESS_START"@ != "INBOUND_TCP"@,
        "PROCESS_START"@ != "PROCESS_PORT_BIND"@,
        "PROCESS_STOP"@ != "FILE_CREATE"@,
        "PROCESS_STOP"@ != "FILE_DELETE"@,
        "PROCESS_STOP"@ != "FILE_READ"@,
        "PROCESS_STOP"@ != "FILE_WRITE"@,
        "PROCESS_STOP"@ != "OUTBOUND_TCP"@,
        "PROCESS_STOP"@ != "INBOUND_TCP"@,
        "PROCESS_STOP"@ != "PROCESS_PORT_BIND"@,
        "FILE_CREATE"@ != "FILE_DELETE"@,
        "FILE_CREATE"@ != "FILE_READ"@,
        "FILE_CREATE"@ != "FILE_WRITE"@,
        "FILE_CREATE"@ != "OUTBOUND_TCP"@,
        "FILE_CREATE"@ != "INBOUND_TCP"@,
        "FILE_CREATE"@ != "PROCESS_PORT_BIND"@,
        "FILE_DELETE"@ != "FILE_READ"@,
        "FILE_DELETE"@ != "FILE_WRITE"@,
        "FILE_DELETE"@ != "OUTBOUND_TCP"@,
        "FILE_DELETE"@ != "INBOUND_TCP"@,
        "FILE_DELETE"@ != "PROCESS_PORT_BIND"@,
        "FILE_READ"@ != "FILE_WRITE"@,
        "FILE_READ"@ != "OUTBOUND_TCP"@,
        "FILE_READ"@ != "INBOUND_TCP"@,
        "FILE_READ"@ != "PROCESS_PORT_BIND"@,
        "FILE_WRITE"@ != "OUTBOUND_TCP"@,
        "FILE_WRITE"@ != "INBOUND_TCP"@,
        "FILE_WRITE"@ != "PROCESS_PORT_BIND"@,
        "OUTBOUND_TCP"@ != "INBOUND_TCP"@,
        "OUTBOUND_TCP"@ != "PROCESS_PORT_BIND"@,
        "INBOUND_TCP"@ != "PROCESS_PORT_BIND"@,
{
    reveal_strlit("PROCESS_START");
    reveal_strlit("PROCESS_STOP");
    reveal_strlit("FILE_CREATE");
    reveal_strlit("FILE_DELETE");
    reveal_strlit("FILE_READ");
    reveal_strlit("FILE_WRITE");
    reveal_strlit("OUTBOUND_TCP");
    reveal_strlit("INBOUND_TCP");
    reveal_strlit("PROCESS_PORT_BIND");
    assert("PROCESS_START"@.len() != "PROCESS_STOP"@.len());
    assert("PROCESS_START"@.len() != "FILE_CREATE"@.len());
    assert("PROCESS_START"@.len() != "FILE_DELETE"@.len());
    assert("PROCESS_START"@.len() != "FILE_READ"@.len());
    assert("PROCESS_START"@.len() != "FILE_WRITE"@.len());
    assert("PROCESS_START"@.len() != "OUTBOUND_TCP"@.len());
    assert("PROCESS_START"@.len() != "INBOUND_TCP"@.len());
    assert("PROCESS_START"@.len() != "PROCESS_PORT_BIND"@.len());
    assert("PROCESS_STOP"@.len() != "FILE_CREATE"@.len());
    assert("PROCESS_STOP"@.len() != "FILE_DELETE"@.len());
    assert("PROCESS_STOP"@.len() != "FILE_READ"@.len());
    assert("PROCESS_STOP"@.len() != "FILE_WRITE"@.len());
    assert("PROCESS_STOP"@[0] != "OUTBOUND_TCP"@[0]);
    assert("PROCESS_STOP"@.len() != "INBOUND_TCP"@.len());
    assert("PROCESS_STOP"@.len() != "PROCESS_PORT_BIND"@.len());
    assert("FILE_CREATE"@[5] != "FILE_DELETE"@[5]);
    assert("FILE_CREATE"@.len() != "FILE_READ"@.len());
    assert("FILE_CREATE"@.len() != "FILE_WRITE"@.len());
    assert("FILE_CREATE"@.len() != "OUTBOUND_TCP"@.len());
    assert("FILE_CREATE"@[0] != "INBOUND_TCP"@[0]);
    assert("FILE_CREATE"@.len() != "PROCESS_PORT_BIND"@.len());
    assert("FILE_DELETE"@.len() != "FILE_READ"@.len());
    assert("FILE_DELETE"@.len() != "FILE_WRITE"@.len());
    assert("FILE_DELETE"@.len() != "OUTBOUND_TCP"@.len());
    assert("FILE_DELETE"@[0] != "INBOUND_TCP"@[0]);
    assert("FILE_DELETE"@.len() != "PROCESS_PORT_BIND"@.len());
    assert("FILE_READ"@.len() != "FILE_WRITE"@.len());
    assert("FILE_READ"@.len() != "OUTBOUND_TCP"@.len());
    assert("FILE_READ"@.len() != "INBOUND_TCP"@.len());
    assert("FILE_READ"@.len() != "PROCESS_PORT_BIND"@.len());
    assert("FILE_WRITE"@.len() != "OUTBOUND_TCP"@.len());
    assert("FILE_WRITE"@.len() != "INBOUND_TCP"@.len());
    assert("FILE_WRITE"@.len() != "PROCESS_PORT_BIND"@.len());
    assert("OUTBOUND_TCP"@.len() != "INBOUND_TCP"@.len());
    assert("OUTBOUND_TCP"@.len() != "PROCESS_PORT_BIND"@.len());
    assert("INBOUND_TCP"@.len() != "PROCESS_PORT_BIND"@.len());
}

proof fn lemma_round_trip_process_start(x: ProcessStart)
    requires
        x.eventname@ == "PROCESS_START"@,
    ensures
        decode_spec(wire_process_start(x)) == Ok::<_, DecodeError>(GenericEvent::ProcessStart(x)),
{
    let s = wire_process_start(x);
    reveal_strlit("process_id");
    reveal_strlit("parent_process_id");
    reveal_strlit("name");
    reveal_strlit("hostname");
    reveal_strlit("arguments");
    reveal_strlit("timestamp");
    reveal_strlit("exe");
    reveal_strlit("eventname");
    lemma_find_first(s, 0);
    assert forall|j: int| 0 <= j < 1 implies (#[trigger] s[j]).0 != s[1].0 by {
        if j == 0 {
            assert("process_id"@.len() != "parent_process_id"@.len());
        }
    }
    lemma_find_first(s, 1);
    assert forall|j: int| 0 <= j < 2 implies (#[trigger] s[j]).0 != s[2].0 by {
        if j == 0 {
            assert("process_id"@.len() != "name"@.len());
        } else if j == 1 {
            assert("parent_process_id"@.len() != "name"@.len());
        }
    }
    lemma_find_first(s, 2);
    assert forall|j: int| 0 <= j < 3 implies (#[trigger] s[j]).0 != s[3].0 by {
        if j == 0 {
            assert("process_id"@.len() != "hostname"@.len());
        } else if j == 1 {
            assert("parent_process_id"@.len() != "hostname"@.len());
        } else if j == 2 {
            assert("name"@.len() != "hostname"@.len());
        }
    }
    lemma_find_first(s, 3);
    assert forall|j: int| 0 <= j < 4 implies (#[trigger] s[j]).0 != s[4].0 by {
        if j == 0 {
            assert("process_id"@.len() != "arguments"@.len());
        } else if j == 1 {
            assert("parent_process_id"@.len() != "arguments"@.len());
        } else if j == 2 {
            assert("name"@.len() != "arguments"@.len());
        } else if j == 3 {
            assert("hostname"@.len() != "arguments"@.len());
        }
    }
    lemma_find_first(s, 4);
    assert forall|j: int| 0 <= j < 5 implies (#[trigger] s[j]).0 != s[5].0 by {
        if j == 0 {
            assert("process_id"@.len() != "timestamp"@.len());
        } else if j == 1 {
            assert("parent_process_id"@.len() != "timestamp"@.len());
        } else if j == 2 {
            assert("name"@.len() != "timestamp"@.len());
        } else if j == 3 {
            assert("hostname"@.len() != "timestamp"@.len());
        } else if j == 4 {
            assert("arguments"@[0] != "timestamp"@[0]);
        }
    }
    lemma_find_first(s, 5);
    assert forall|j: int| 0 <= j < 6 implies (#[trigger] s[j]).0 != s[6].0 by {
        if j == 0 {
            assert("process_id"@.len() != "exe"@.len());
        } else if j == 1 {
            assert("parent_process_id"@.len() != "exe"@.len());
        } else if j == 2 {
            assert("name"@.len() != "exe"@.len());
        } else if j == 3 {
            assert("hostname"@.len() != "exe"@.len());
        } else if j == 4 {
            assert("arguments"@.len() != "exe"@.len());
        } else if j == 5 {
            assert("timestamp"@.len() != "exe"@.len());
        }
    }
    lemma_find_first(s, 6);
    assert forall|j: int| 0 <= j < 7 implies (#[trigger] s[j]).0 != s[7].0 by {
        if j == 0 {
            assert("process_id"@.len() != "eventname"@.len());
        } else if j == 1 {
            assert("parent_process_id"@.len() != "eventname"@.len());
        } else if j == 2 {
            assert("name"@.len() != "eventname"@.len());
        } else if j == 3 {
            assert("hostname"@.len() != "eventname"@.len());
        } else if j == 4 {
            assert("arguments"@[0] != "eventname"@[0]);
        } else if j == 5 {
            assert("timestamp"@[0] != "eventname"@[0]);
        } else if j == 6 {
            assert("exe"@.len() != "eventname"@.len());
        }
    }
    lemma_find_first(s, 7);
    lemma_kind_names_distinct();
    assert(decode_process_start_spec(s) == Ok::<_, DecodeError>(x));
}

proof fn lemma_round_trip_process_stop(x: ProcessStop)
    requires
        x.eventname@ == "PROCESS_STOP"@,
    ensures
        decode_spec(wire_process_stop(x)) == Ok::<_, DecodeError>(GenericEvent::ProcessStop(x)),
{
    let s = wire_process_stop(x);
    reveal_strlit("process_id");
    reveal_strlit("name");
    reveal_strlit("hostname");
    reveal_strlit("timestamp");
    reveal_strlit("eventname");
    lemma_find_first(s, 0);
    assert forall|j: int| 0 <= j < 1 implies (#[trigger] s[j]).0 != s[1].0 by {
        if j == 0 {
            assert("process_id"@.len() != "name"@.len());
        }
    }
    lemma_find_first(s, 1);
    assert forall|j: int| 0 <= j < 2 implies (#[trigger] s[j]).0 != s[2].0 by {
        if j == 0 {
            assert("process_id"@.len() != "hostname"@.len());
        } else if j == 1 {
            assert("name"@.len() != "hostname"@.len());
        }
    }
    lemma_find_first(s, 2);
    assert forall|j: int| 0 <= j < 3 implies (#[trigger] s[j]).0 != s[3].0 by {
        if j == 0 {
            assert("process_id"@.len() != "timestamp"@.len());
        } else if j == 1 {
            assert("name"@.len() != "timestamp"@.len());
        } else if j == 2 {
            assert("hostname"@.len() != "timestamp"@.len());
        }
    }
    lemma_find_first(s, 3);
    assert forall|j: int| 0 <= j < 4 implies (#[trigger] s[j]).0 != s[4].0 by {
        if j == 0 {
            assert("process_id"@.len() != "eventname"@.len());
        } else if j == 1 {
            assert("name"@.len() != "eventname"@.len());
        } else if j == 2 {
            assert("hostname"@.len() != "eventname"@.len());
        } else if j == 3 {
            assert("timestamp"@[0] != "eventname"@[0]);
        }
    }
    lemma_find_first(s, 4);
    lemma_kind_names_distinct();
    assert(decode_process_stop_spec(s) == Ok::<_, DecodeError>(x));
}

proof fn lemma_round_trip_file_create(x: FileCreate)
    requires
        x.eventname@ == "FILE_CREATE"@,
    ensures
        decode_spec(wire_file_create(x)) == Ok::<_, DecodeError>(GenericEvent::FileCreate(x)),
{
    let s = wire_file_create(x);
    reveal_strlit("creator_process_id");
    reveal_strlit("creator_process_name");
    reveal_strlit("path");
    reveal_strlit("hostname");
    reveal_strlit("timestamp");
    reveal_strlit("eventname");
    lemma_find_first(s, 0);
    assert forall|j: int| 0 <= j < 1 implies (#[trigger] s[j]).0 != s[1].0 by {
        if j == 0 {
            assert("creator_process_id"@.len() != "creator_process_name"@.len());
        }
    }
    lemma_find_first(s, 1);
    assert forall|j: int| 0 <= j < 2 implies (#[trigger] s[j]).0 != s[2].0 by {
        if j == 0 {
            assert("creator_process_id"@.len() != "path"@.len());
        } else if j == 1 {
            assert("creator_process_name"@.len() != "path"@.len());
        }
    }
    lemma_find_first(s, 2);
    assert forall|j: int| 0 <= j < 3 implies (#[trigger] s[j]).0 != s[3].0 by {
        if j == 0 {
            assert("creator_process_id"@.len() != "hostname"@.len());
        } else if j == 1 {
            assert("creator_process_name"@.len() != "hostname"@.len());
        } else if j == 2 {
            assert("path"@.len() != "hostname"@.len());
        }
    }
    lemma_find_first(s, 3);
    assert forall|j: int| 0 <= j < 4 implies (#[trigger] s[j]).0 != s[4].0 by {
        if j == 0 {
            assert("creator_process_id"@.len() != "timestamp"@.len());
        } else if j == 1 {
            assert("creator_process_name"@.len() != "timestamp"@.len());
        } else if j == 2 {
            assert("path"@.len() != "timestamp"@.len());
        } else if j == 3 {
            assert("hostname"@.len() != "timestamp"@.len());
        }
    }
    lemma_find_first(s, 4);
    assert forall|j: int| 0 <= j < 5 implies (#[trigger] s[j]).0 != s[5].0 by {
        if j == 0 {
            assert("creator_process_id"@.len() != "eventname"@.len());
        } else if j == 1 {
            assert("creator_process_name"@.len() != "eventname"@.len());
        } else if j == 2 {
            assert("path"@.len() != "eventname"@.len());
        } else if j == 3 {
            assert("hostname"@.len() != "eventname"@.len());
        } else if j == 4 {
            assert("timestamp"@[0] != "eventname"@[0]);
        }
    }
    lemma_find_first(s, 5);
    lemma_kind_names_distinct();
    assert(decode_file_create_spec(s) == Ok::<_, DecodeError>(x));
}

proof fn lemma_round_trip_file_delete(x: FileDelete)
    requires
        x.eventname@ == "FILE_DELETE"@,
    ensures
        decode_spec(wire_file_delete(x)) == Ok::<_, DecodeError>(GenericEvent::FileDelete(x)),
{
    let s = wire_file_delete(x);
    reveal_strlit("deleter_process_id");
    reveal_strlit("deleter_process_name");
    reveal_strlit("path");
    reveal_strlit("hostname");
    reveal_strlit("timestamp");
    reveal_strlit("eventname");
    lemma_find_first(s, 0);
    assert forall|j: int| 0 <= j < 1 implies (#[trigger] s[j]).0 != s[1].0 by {
        if j == 0 {
            assert("deleter_process_id"@.len() != "deleter_process_name"@.len());
        }
    }
    lemma_find_first(s, 1);
    assert forall|j: int| 0 <= j < 2 implies (#[trigger] s[j]).0 != s[2].0 by {
        if j == 0 {
            assert("deleter_process_id"@.len() != "path"@.len());
        } else if j == 1 {
            assert("deleter_process_name"@.len() != "path"@.len());
        }
    }
    lemma_find_first(s, 2);
    assert forall|j: int| 0 <= j < 3 implies (#[trigger] s[j]).0 != s[3].0 by {
        if j == 0 {
            assert("deleter_process_id"@.len() != "hostname"@.len());
        } else if j == 1 {
            assert("deleter_process_name"@.len() != "hostname"@.len());
        } else if j == 2 {
            assert("path"@.len() != "hostname"@.len());
        }
    }
    lemma_find_first(s, 3);
    assert forall|j: int| 0 <= j < 4 implies (#[trigger] s[j]).0 != s[4].0 by {
        if j == 0 {
            assert("deleter_process_id"@.len() != "timestamp"@.len());
        } else if j == 1 {
            assert("deleter_process_name"@.len() != "timestamp"@.len());
        } else if j == 2 {
            assert("path"@.len() != "timestamp"@.len());
        } else if j == 3 {
            assert("hostname"@.len() != "timestamp"@.len());
        }
    }
    lemma_find_first(s, 4);
    assert forall|j: int| 0 <= j < 5 implies (#[trigger] s[j]).0 != s[5].0 by {
        if j == 0 {
            assert("deleter_process_id"@.len() != "eventname"@.len());
        } else if j == 1 {
            assert("deleter_process_name"@.len() != "eventname"@.len());
        } else if j == 2 {
            assert("path"@.len() != "eventname"@.len());
        } else if j == 3 {
            assert("hostname"@.len() != "eventname"@.len());
        } else if j == 4 {
            assert("timestamp"@[0] != "eventname"@[0]);
        }
    }
    lemma_find_first(s, 5);
    lemma_kind_names_distinct();
    assert(decode_file_delete_spec(s) == Ok::<_, DecodeError>(x));
}

proof fn lemma_round_trip_file_read(x: FileRead)
    requires
        x.eventname@ == "FILE_READ"@,
    ensures
        decode_spec(wire_file_read(x)) == Ok::<_, DecodeError>(GenericEvent::FileRead(x)),
{
    let s = wire_file_read(x);
    reveal_strlit("reader_process_id");
    reveal_strlit("reader_process_name");
    reveal_strlit("path");
    reveal_strlit("hostname");
    reveal_strlit("timestamp");
    reveal_strlit("eventname");
    lemma_find_first(s, 0);
    assert forall|j: int| 0 <= j < 1 implies (#[trigger] s[j]).0 != s[1].0 by {
        if j == 0 {
            assert("reader_process_id"@.len() != "reader_process_name"@.len());
        }
    }
    lemma_find_first(s, 1);
    assert forall|j: int| 0 <= j < 2 implies (#[trigger] s[j]).0 != s[2].0 by {
        if j == 0 {
            assert("reader_process_id"@.len() != "path"@.len());
        } else if j == 1 {
            assert("reader_process_name"@.len() != "path"@.len());
        }
    }
    lemma_find_first(s, 2);
    assert forall|j: int| 0 <= j < 3 implies (#[trigger] s[j]).0 != s[3].0 by {
        if j == 0 {
            assert("reader_process_id"@.len() != "hostname"@.len());
        } else if j == 1 {
            assert("reader_process_name"@.len() != "hostname"@.len());
        } else if j == 2 {
            assert("path"@.len() != "hostname"@.len());
        }
    }
    lemma_find_first(s, 3);
    assert forall|j: int| 0 <= j < 4 implies (#[trigger] s[j]).0 != s[4].0 by {
        if j == 0 {
            assert("reader_process_id"@.len() != "timestamp"@.len());
        } else if j == 1 {
            assert("reader_process_name"@.len() != "timestamp"@.len());
        } else if j == 2 {
            assert("path"@.len() != "timestamp"@.len());
        } else if j == 3 {
            assert("hostname"@.len() != "timestamp"@.len());
        }
    }
    lemma_find_first(s, 4);
    assert forall|j: int| 0 <= j < 5 implies (#[trigger] s[j]).0 != s[5].0 by {
        if j == 0 {
            assert("reader_process_id"@.len() != "eventname"@.len());
        } else if j == 1 {
            assert("reader_process_name"@.len() != "eventname"@.len());
        } else if j == 2 {
            assert("path"@.len() != "eventname"@.len());
        } else if j == 3 {
            assert("hostname"@.len() != "eventname"@.len());
        } else if j == 4 {
            assert("timestamp"@[0] != "eventname"@[0]);
        }
    }
    lemma_find_first(s, 5);
    lemma_kind_names_distinct();
    assert(decode_file_read_spec(s) == Ok::<_, DecodeError>(x));
}

proof fn lemma_round_trip_file_write(x: FileWrite)
    requires
        x.eventname@ == "FILE_WRITE"@,
    ensures
        decode_spec(wire_file_write(x)) == Ok::<_, DecodeError>(GenericEvent::FileWrite(x)),
{
    let s = wire_file_write(x);
    reveal_strlit("writer_pid");
    reveal_strlit("writer_process_name");
    reveal_strlit("path");
    reveal_strlit("hostname");
    reveal_strlit("timestamp");
    reveal_strlit("eventname");
    lemma_find_first(s, 0);
    assert forall|j: int| 0 <= j < 1 implies (#[trigger] s[j]).0 != s[1].0 by {
        if j == 0 {
            assert("writer_pid"@.len() != "writer_process_name"@.len());
        }
    }
    lemma_find_first(s, 1);
    assert forall|j: int| 0 <= j < 2 implies (#[trigger] s[j]).0 != s[2].0 by {
        if j == 0 {
            assert("writer_pid"@.len() != "path"@.len());
        } else if j == 1 {
            assert("writer_process_name"@.len() != "path"@.len());
        }
    }
    lemma_find_first(s, 2);
    assert forall|j: int| 0 <= j < 3 implies (#[trigger] s[j]).0 != s[3].0 by {
        if j == 0 {
            assert("writer_pid"@.len() != "hostname"@.len());
        } else if j == 1 {
            assert("writer_process_name"@.len() != "hostname"@.len());
        } else if j == 2 {
            assert("path"@.len() != "hostname"@.len());
        }
    }
    lemma_find_first(s, 3);
    assert forall|j: int| 0 <= j < 4 implies (#[trigger] s[j]).0 != s[4].0 by {
        if j == 0 {
            assert("writer_pid"@.len() != "timestamp"@.len());
        } else if j == 1 {
            assert("writer_process_name"@.len() != "timestamp"@.len());
        } else if j == 2 {
            assert("path"@.len() != "timestamp"@.len());
        } else if j == 3 {
            assert("hostname"@.len() != "timestamp"@.len());
        }
    }
    lemma_find_first(s, 4);
    assert forall|j: int| 0 <= j < 5 implies (#[trigger] s[j]).0 != s[5].0 by {
        if j == 0 {
            assert("writer_pid"@.len() != "eventname"@.len());
        } else if j == 1 {
            assert("writer_process_name"@.len() != "eventname"@.len());
        } else if j == 2 {
            assert("path"@.len() != "eventname"@.len());
        } else if j == 3 {
            assert("hostname"@.len() != "eventname"@.len());
        } else if j == 4 {
            assert("timestamp"@[0] != "eventname"@[0]);
        }
    }
    lemma_find_first(s, 5);
    lemma_kind_names_distinct();
    assert(decode_file_write_spec(s) == Ok::<_, DecodeError>(x));
}

proof fn lemma_round_trip_outbound(x: ProcessOutboundConnectionLog)
    requires
        x.eventname@ == "OUTBOUND_TCP"@,
    ensures
        decode_spec(wire_outbound(x)) == Ok::<_, DecodeError>(
            GenericEvent::ProcessOutboundConnectionLog(x),
        ),
{
    let s = wire_outbound(x);
    reveal_strlit("pid");
    reveal_strlit("protocol");
    reveal_strlit("src_port");
    reveal_strlit("dst_port");
    reveal_strlit("src_hostname");
    reveal_strlit("src_ip_addr");
    reveal_strlit("dst_ip_addr");
    reveal_strlit("timestamp");
    reveal_strlit("eventname");
    lemma_find_first(s, 0);
    assert forall|j: int| 0 <= j < 1 implies (#[trigger] s[j]).0 != s[1].0 by {
        if j == 0 {
            assert("pid"@.len() != "protocol"@.len());
        }
    }
    lemma_find_first(s, 1);
    assert forall|j: int| 0 <= j < 2 implies (#[trigger] s[j]).0 != s[2].0 by {
        if j == 0 {
            assert("pid"@.len() != "src_port"@.len());
        } else if j == 1 {
            assert("protocol"@[0] != "src_port"@[0]);
        }
    }
    lemma_find_first(s, 2);
    assert forall|j: int| 0 <= j < 3 implies (#[trigger] s[j]).0 != s[3].0 by {
        if j == 0 {
            assert("pid"@.len() != "dst_port"@.len());
        } else if j == 1 {
            assert("protocol"@[0] != "dst_port"@[0]);
        } else if j == 2 {
            assert("src_port"@[0] != "dst_port"@[0]);
        }
    }
    lemma_find_first(s, 3);
    assert forall|j: int| 0 <= j < 4 implies (#[trigger] s[j]).0 != s[4].0 by {
        if j == 0 {
            assert("pid"@.len() != "src_hostname"@.len());
        } else if j == 1 {
            assert("protocol"@.len() != "src_hostname"@.len());
        } else if j == 2 {
            assert("src_port"@.len() != "src_hostname"@.len());
        } else if j == 3 {
            assert("dst_port"@.len() != "src_hostname"@.len());
        }
    }
    lemma_find_first(s, 4);
    assert forall|j: int| 0 <= j < 5 implies (#[trigger] s[j]).0 != s[5].0 by {
        if j == 0 {
            assert("pid"@.len() != "src_ip_addr"@.len());
        } else if j == 1 {
            assert("protocol"@.len() != "src_ip_addr"@.len());
        } else if j == 2 {
            assert("src_port"@.len() != "src_ip_addr"@.len());
        } else if j == 3 {
            assert("dst_port"@.len() != "src_ip_addr"@.len());
        } else if j == 4 {
            assert("src_hostname"@.len() != "src_ip_addr"@.len());
        }
    }
    lemma_find_first(s, 5);
    assert forall|j: int| 0 <= j < 6 implies (#[trigger] s[j]).0 != s[6].0 by {
        if j == 0 {
            assert("pid"@.len() != "dst_ip_addr"@.len());
        } else if j == 1 {
            assert("protocol"@.len() != "dst_ip_addr"@.len());
        } else if j == 2 {
            assert("src_port"@.len() != "dst_ip_addr"@.len());
        } else if j == 3 {
            assert("dst_port"@.len() != "dst_ip_addr"@.len());
        } else if j == 4 {
            assert("src_hostname"@.len() != "dst_ip_addr"@.len());
        } else if j == 5 {
            assert("src_ip_addr"@[0] != "dst_ip_addr"@[0]);
        }
    }
    lemma_find_first(s, 6);
    assert forall|j: int| 0 <= j < 7 implies (#[trigger] s[j]).0 != s[7].0 by {
        if j == 0 {
            assert("pid"@.len() != "timestamp"@.len());
        } else if j == 1 {
            assert("protocol"@.len() != "timestamp"@.len());
        } else if j == 2 {
            assert("src_port"@.len() != "timestamp"@.len());
        } else if j == 3 {
            assert("dst_port"@.len() != "timestamp"@.len());
        } else if j == 4 {
            assert("src_hostname"@.len() != "timestamp"@.len());
        } else if j == 5 {
            assert("src_ip_addr"@.len() != "timestamp"@.len());
        } else if j == 6 {
            assert("dst_ip_addr"@.len() != "timestamp"@.len());
        }
    }
    lemma_find_first(s, 7);
    assert forall|j: int| 0 <= j < 8 implies (#[trigger] s[j]).0 != s[8].0 by {
        if j == 0 {
            assert("pid"@.len() != "eventname"@.len());
        } else if j == 1 {
            assert("protocol"@.len() != "eventname"@.len());
        } else if j == 2 {
            assert("src_port"@.len() != "eventname"@.len());
        } else if j == 3 {
            assert("dst_port"@.len() != "eventname"@.len());
        } else if j == 4 {
            assert("src_hostname"@.len() != "eventname"@.len());
        } else if j == 5 {
            assert("src_ip_addr"@.len() != "eventname"@.len());
        } else if j == 6 {
            assert("dst_ip_addr"@.len() != "eventname"@.len());
        } else if j == 7 {
            assert("timestamp"@[0] != "eventname"@[0]);
        }
    }
    lemma_find_first(s, 8);
    lemma_kind_names_distinct();
    assert(decode_outbound_spec(s) == Ok::<_, DecodeError>(x));
}

proof fn lemma_round_trip_inbound(x: ProcessInboundConnectionLog)
    requires
        x.eventname@ == "INBOUND_TCP"@,
    ensures
        decode_spec(wire_inbound(x)) == Ok::<_, DecodeError>(
            GenericEvent::ProcessInboundConnectionLog(x),
        ),
{
    let s = wire_inbound(x);
    reveal_strlit("pid");
    reveal_strlit("src_ip_addr");
    reveal_strlit("src_port");
    reveal_strlit("dst_port");
    reveal_strlit("dst_hostname");
    reveal_strlit("dst_ip_addr");
    reveal_strlit("protocol");
    reveal_strlit("timestamp");
    reveal_strlit("eventname");
    lemma_find_first(s, 0);
    assert forall|j: int| 0 <= j < 1 implies (#[trigger] s[j]).0 != s[1].0 by {
        if j == 0 {
            assert("pid"@.len() != "src_ip_addr"@.len());
        }
    }
    lemma_find_first(s, 1);
    assert forall|j: int| 0 <= j < 2 implies (#[trigger] s[j]).0 != s[2].0 by {
        if j == 0 {
            assert("pid"@.len() != "src_port"@.len());
        } else if j == 1 {
            assert("src_ip_addr"@.len() != "src_port"@.len());
        }
    }
    lemma_find_first(s, 2);
    assert forall|j: int| 0 <= j < 3 implies (#[trigger] s[j]).0 != s[3].0 by {
        if j == 0 {
            assert("pid"@.len() != "dst_port"@.len());
        } else if j == 1 {
            assert("src_ip_addr"@.len() != "dst_port"@.len());
        } else if j == 2 {
            assert("src_port"@[0] != "dst_port"@[0]);
        }
    }
    lemma_find_first(s, 3);
    assert forall|j: int| 0 <= j < 4 implies (#[trigger] s[j]).0 != s[4].0 by {
        if j == 0 {
            assert("pid"@.len() != "dst_hostname"@.len());
        } else if j == 1 {
            assert("src_ip_addr"@.len() != "dst_hostname"@.len());
        } else if j == 2 {
            assert("src_port"@.len() != "dst_hostname"@.len());
        } else if j == 3 {
            assert("dst_port"@.len() != "dst_hostname"@.len());
        }
    }
    lemma_find_first(s, 4);
    assert forall|j: int| 0 <= j < 5 implies (#[trigger] s[j]).0 != s[5].0 by {
        if j == 0 {
            assert("pid"@.len() != "dst_ip_addr"@.len());
        } else if j == 1 {
            assert("src_ip_addr"@[0] != "dst_ip_addr"@[0]);
        } else if j == 2 {
            assert("src_port"@.len() != "dst_ip_addr"@.len());
        } else if j == 3 {
            assert("dst_port"@.len() != "dst_ip_addr"@.len());
        } else if j == 4 {
            assert("dst_hostname"@.len() != "dst_ip_addr"@.len());
        }
    }
    lemma_find_first(s, 5);
    assert forall|j: int| 0 <= j < 6 implies (#[trigger] s[j]).0 != s[6].0 by {
        if j == 0 {
            assert("pid"@.len() != "protocol"@.len());
        } else if j == 1 {
            assert("src_ip_addr"@.len() != "protocol"@.len());
        } else if j == 2 {
            assert("src_port"@[0] != "protocol"@[0]);
        } else if j == 3 {
            assert("dst_port"@[0] != "protocol"@[0]);
        } else if j == 4 {
            assert("dst_hostname"@.len() != "protocol"@.len());
        } else if j == 5 {
            assert("dst_ip_addr"@.len() != "protocol"@.len());
        }
    }
    lemma_find_first(s, 6);
    assert forall|j: int| 0 <= j < 7 implies (#[trigger] s[j]).0 != s[7].0 by {
        if j == 0 {
            assert("pid"@.len() != "timestamp"@.len());
        } else if j == 1 {
            assert("src_ip_addr"@.len() != "timestamp"@.len());
        } else if j == 2 {
            assert("src_port"@.len() != "timestamp"@.len());
        } else if j == 3 {
            assert("dst_port"@.len() != "timestamp"@.len());
        } else if j == 4 {
            assert("dst_hostname"@.len() != "timestamp"@.len());
        } else if j == 5 {
            assert("dst_ip_addr"@.len() != "timestamp"@.len());
        } else if j == 6 {
            assert("protocol"@.len() != "timestamp"@.len());
        }
    }
    lemma_find_first(s, 7);
    assert forall|j: int| 0 <= j < 8 implies (#[trigger] s[j]).0 != s[8].0 by {
        if j == 0 {
            assert("pid"@.len() != "eventname"@.len());
        } else if j == 1 {
            assert("src_ip_addr"@.len() != "eventname"@.len());
        } else if j == 2 {
            assert("src_port"@.len() != "eventname"@.len());
        } else if j == 3 {
            assert("dst_port"@.len() != "eventname"@.len());
        } else if j == 4 {
            assert("dst_hostname"@.len() != "eventname"@.len());
        } else if j == 5 {
            assert("dst_ip_addr"@.len() != "eventname"@.len());
        } else if j == 6 {
            assert("protocol"@.len() != "eventname"@.len());
        } else if j == 7 {
            assert("timestamp"@[0] != "eventname"@[0]);
        }
    }
    lemma_find_first(s, 8);
    lemma_kind_names_distinct();
    assert(decode_inbound_spec(s) == Ok::<_, DecodeError>(x));
}

proof fn lemma_round_trip_port_bind(x: ProcessPortBindLog)
    requires
        x.eventname@ == "PROCESS_PORT_BIND"@,
    ensures
        decode_spec(wire_port_bind(x)) == Ok::<_, DecodeError>(GenericEvent::ProcessPortBindLog(x)),
{
    let s = wire_port_bind(x);
    reveal_strlit("pid");
    reveal_strlit("bound_port");
    reveal_strlit("hostname");
    reveal_strlit("timestamp");
    reveal_strlit("eventname");
    lemma_find_first(s, 0);
    assert forall|j: int| 0 <= j < 1 implies (#[trigger] s[j]).0 != s[1].0 by {
        if j == 0 {
            assert("pid"@.len() != "bound_port"@.len());
        }
    }
    lemma_find_first(s, 1);
    assert forall|j: int| 0 <= j < 2 implies (#[trigger] s[j]).0 != s[2].0 by {
        if j == 0 {
            assert("pid"@.len() != "hostname"@.len());
        } else if j == 1 {
            assert("bound_port"@.len() != "hostname"@.len());
        }
    }
    lemma_find_first(s, 2);
    assert forall|j: int| 0 <= j < 3 implies (#[trigger] s[j]).0 != s[3].0 by {
        if j == 0 {
            assert("pid"@.len() != "timestamp"@.len());
        } else if j == 1 {
            assert("bound_port"@.len() != "timestamp"@.len());
        } else if j == 2 {
            assert("hostname"@.len() != "timestamp"@.len());
        }
    }
    lemma_find_first(s, 3);
    assert forall|j: int| 0 <= j < 4 implies (#[trigger] s[j]).0 != s[4].0 by {
        if j == 0 {
            assert("pid"@.len() != "eventname"@.len());
        } else if j == 1 {
            assert("bound_port"@.len() != "eventname"@.len());
        } else if j == 2 {
            assert("hostname"@.len() != "eventname"@.len());
        } else if j == 3 {
            assert("timestamp"@[0] != "eventname"@[0]);
        }
    }
    lemma_find_first(s, 4);
    lemma_kind_names_distinct();
    assert(decode_port_bind_spec(s) == Ok::<_, DecodeError>(x));
}

/// Decoding the payload that encodes a well-formed event gives back that event.
pub proof fn lemma_decode_round_trip(e: GenericEvent)
    requires
        e.wf(),
    ensures
        decode_spec(wire(e)) == Ok::<_, DecodeError>(e),
{
    match e {
        GenericEvent::ProcessStart(x) => lemma_round_trip_process_start(x),
        GenericEvent::ProcessStop(x) => lemma_round_trip_process_stop(x),
        GenericEvent::FileCreate(x) => lemma_round_trip_file_create(x),
        GenericEvent::FileDelete(x) => lemma_round_trip_file_delete(x),
        GenericEvent::FileRead(x) => lemma_round_trip_file_read(x),
        GenericEvent::FileWrite(x) => lemma_round_trip_file_write(x),
        GenericEvent::ProcessOutboundConnectionLog(x) => lemma_round_trip_outbound(x),
        GenericEvent::ProcessInboundConnectionLog(x) => lemma_round_trip_inbound(x),
        GenericEvent::ProcessPortBindLog(x) => lemma_round_trip_port_bind(x),
    }
}

} // verus!

verus! {

impl ProcessStart {
    /// A copy of this event, equal to it field by field.
    pub fn duplicate(&self) -> (r: ProcessStart)
        ensures
            r == *self,
    {
        ProcessStart {
            process_id: self.process_id,
            parent_process_id: self.parent_process_id,
            name: self.name.clone(),
            hostname: self.hostname.clone(),
            arguments: self.arguments.clone(),
            timestamp: self.timestamp,
            exe: match &self.exe {
                Some(s) => Some(s.clone()),
                None => None,
            },
            eventname: self.eventname.clone(),
        }
    }
}

impl ProcessStop {
    /// A copy of this event, equal to it field by field.
    pub fn duplicate(&self) -> (r: ProcessStop)
        ensures
            r == *self,
    {
        ProcessStop {
            process_id: self.process_id,
            name: self.name.clone(),
            hostname: self.hostname.clone(),
            timestamp: self.timestamp,
            eventname: self.eventname.clone(),
        }
    }
}

impl FileCreate {
    /// A copy of this event, equal to it field by field.
    pub fn duplicate(&self) -> (r: FileCreate)
        ensures
            r == *self,
    {
        FileCreate {
            creator_process_id: self.creator_process_id,
            creator_process_name: match &self.creator_process_name {
                Some(s) => Some(s.clone()),
                None => None,
            },
            path: self.path.clone(),
            hostname: self.hostname.clone(),
            timestamp: self.timestamp,
            eventname: self.eventname.clone(),
        }
    }
}

impl FileDelete {
    /// A copy of this event, equal to it field by field.
    pub fn duplicate(&self) -> (r: FileDelete)
        ensures
            r == *self,
    {
        FileDelete {
            deleter_process_id: self.deleter_process_id,
            deleter_process_name: match &self.deleter_process_name {
                Some(s) => Some(s.clone()),
                None => None,
            },
            path: self.path.clone(),
            hostname: self.hostname.clone(),
            timestamp: self.timestamp,
            eventname: self.eventname.clone(),
        }
    }
}

impl FileRead {
    /// A copy of this event, equal to it field by field.
    pub fn duplicate(&self) -> (r: FileRead)
        ensures
            r == *self,
    {
        FileRead {
            reader_process_id: self.reader_process_id,
            reader_process_name: match &self.reader_process_name {
                Some(s) => Some(s.clone()),
                None => None,
            },
            path: self.path.clone(),
            hostname: self.hostname.clone(),
            timestamp: self.timestamp,
            eventname: self.eventname.clone(),
        }
    }
}

impl FileWrite {
    /// A copy of this event, equal to it field by field.
    pub fn duplicate(&self) -> (r: FileWrite)
        ensures
            r == *self,
    {
        FileWrite {
            writer_pid: self.writer_pid,
            writer_process_name: match &self.writer_process_name {
                Some(s) => Some(s.clone()),
                None => None,
            },
            path: self.path.clone(),
            hostname: self.hostname.clone(),
            timestamp: self.timestamp,
            eventname: self.eventname.clone(),
        }
    }
}

impl ProcessOutboundConnectionLog {
    /// A copy of this event, equal to it field by field.
    pub fn duplicate(&self) -> (r: ProcessOutboundConnectionLog)
        ensures
            r == *self,
    {
        ProcessOutboundConnectionLog {
            pid: self.pid,
            protocol: self.protocol.clone(),
            src_port: self.src_port,
            dst_port: self.dst_port,
            src_hostname: self.src_hostname.clone(),
            src_ip_addr: self.src_ip_addr.clone(),
            dst_ip_addr: self.dst_ip_addr.clone(),
            timestamp: self.timestamp,
            eventname: self.eventname.clone(),
        }
    }
}

impl ProcessInboundConnectionLog {
    /// A copy of this event, equal to it field by field.
    pub fn duplicate(&self) -> (r: ProcessInboundConnectionLog)
        ensures
            r == *self,
    {
        ProcessInboundConnectionLog {
            pid: self.pid,
            src_ip_addr: self.src_ip_addr.clone(),
            src_port: self.src_port,
            dst_port: self.dst_port,
            dst_hostname: self.dst_hostname.clone(),
            dst_ip_addr: self.dst_ip_addr.clone(),
            protocol: self.protocol.clone(),
            timestamp: self.timestamp,
            eventname: self.eventname.clone(),
        }
    }
}

impl ProcessPortBindLog {
    /// A copy of this event, equal to it field by field.
    pub fn duplicate(&self) -> (r: ProcessPortBindLog)
        ensures
            r == *self,
    {
        ProcessPortBindLog {
            pid: self.pid,
            bound_port: self.bound_port,
            hostname: self.hostname.clone(),
            timestamp: self.timestamp,
            eventname: self.eventname.clone(),
        }
    }
}

impl GenericEvent {
    /// A copy of this event, equal to it field by field.
    pub fn duplicate(&self) -> (r: GenericEvent)
        ensures
            r == *self,
    {
        match self {
            GenericEvent::ProcessStart(x) => GenericEvent::ProcessStart(x.duplicate()),
            GenericEvent::ProcessStop(x) => GenericEvent::ProcessStop(x.duplicate()),
            GenericEvent::FileCreate(x) => GenericEvent::FileCreate(x.duplicate()),
            GenericEvent::FileDelete(x) => GenericEvent::FileDelete(x.duplicate()),
            GenericEvent::FileRead(x) => GenericEvent::FileRead(x.duplicate()),
            GenericEvent::FileWrite(x) => GenericEvent::FileWrite(x.duplicate()),
            GenericEvent::ProcessOutboundConnectionLog(x) => GenericEvent::ProcessOutboundConnectionLog(
                x.duplicate(),
            ),
            GenericEvent::ProcessInboundConnectionLog(x) => GenericEvent::ProcessInboundConnectionLog(
                x.duplicate(),
            ),
            GenericEvent::ProcessPortBindLog(x) => GenericEvent::ProcessPortBindLog(x.duplicate()),
        }
    }
}

} // verus!
