use vstd::prelude::*;

use crate::errors::{MountMateError, process_error, validation_error};
use crate::diagnostics::{decimal, decimal_text};
use crate::ids::{is_randomness_error, is_uuid_text, new_uuid};
use crate::text::{concat, owned, push_char};

verus! {

/// The directory to measure in: where the share is mounted. Refused when the
/// share is not mounted or its directory cannot be found.
pub fn benchmark_target(mounted: bool, mounted_path: Option<String>) -> (r: Result<String, MountMateError>)
    ensures
        !mounted ==> (r matches Err(MountMateError::Validation(m)) && m@ == "共享盘尚未挂载，无法测速。"@),
        mounted && mounted_path is None ==> (r matches Err(MountMateError::Validation(m)) && m@
            == "找不到已挂载目录，无法测速。"@),
        mounted && mounted_path is Some ==> r == Ok::<String, MountMateError>(mounted_path->Some_0),
{
    if !mounted {
        return Err(validation_error("共享盘尚未挂载，无法测速。"));
    }
    match mounted_path {
        Some(p) => Ok(p),
        None => Err(validation_error("找不到已挂载目录，无法测速。")),
    }
}

/// The name of the scratch directory for one measurement with the id `id`.
pub fn benchmark_dir_name_for(id: &str) -> (r: String)
    ensures
        r@ == ".mountmate-benchmark-"@ + id@,
{
    concat(".mountmate-benchmark-", id)
}

/// The name of a fresh scratch directory for one measurement:
/// `.mountmate-benchmark-` and a random UUID; the error when the system's
/// random source fails.
pub fn benchmark_dir_name() -> (r: Result<String, MountMateError>)
    ensures
        match r {
            Ok(name) => exists|id: Seq<char>| is_uuid_text(id) && name@ == ".mountmate-benchmark-"@ + id,
            Err(e) => is_randomness_error(e),
        },
{
    let id = new_uuid()?;
    Ok(benchmark_dir_name_for(id.as_str()))
}

/// What one measurement writes: a large file, then a number of small files,
/// each filled with one byte value.
pub struct BenchmarkPlan {
    pub large_file_bytes: usize,
    pub large_fill: u8,
    pub small_file_count: u8,
    pub small_file_bytes_each: usize,
    pub small_fill: u8,
}

/// The measurement: one 8 MiB file of `0x5a`, then 20 files of 4096 bytes
/// of `0x33`.
pub fn benchmark_plan() -> (r: BenchmarkPlan)
    ensures
        r.large_file_bytes == 8 * 1024 * 1024,
        r.large_fill == 0x5a,
        r.small_file_count == 20,
        r.small_file_bytes_each == 4096,
        r.small_fill == 0x33,
{
    BenchmarkPlan {
        large_file_bytes: 8 * 1024 * 1024,
        large_fill: 0x5a,
        small_file_count: 20,
        small_file_bytes_each: 4096,
        small_fill: 0x33,
    }
}

/// `small-NN.bin`: the index in decimal, padded with a zero to at least two
/// digits.
pub fn small_file_name(index: u8) -> (r: String)
    ensures
        r@ == "small-"@ + (if index < 10 {
            seq!['0'] + decimal_text(index as nat)
        } else {
            decimal_text(index as nat)
        }) + ".bin"@,
{
    let mut r = owned("small-");
    if index < 10 {
        push_char(&mut r, '0');
    }
    r.append(decimal(index as u128).as_str());
    r.append(".bin");
    r
}

/// The large file must read back at the length it was written with.
pub fn check_read_length(read: usize, written: usize) -> (r: Result<(), MountMateError>)
    ensures
        read == written ==> r is Ok,
        read != written ==> (r matches Err(MountMateError::Process(m)) && m@ == "大文件读取长度不一致。"@),
{
    if read != written {
        return Err(process_error("大文件读取长度不一致。"));
    }
    Ok(())
}

} // verus!
