use vstd::prelude::*;
use vstd::string::StrSliceExecFns;
use vstd::string::StringExecFns;

use crate::cpu::CpuGroup;
use crate::decimal::dashes;
use crate::decimal::format_centi;
use crate::decimal::push_dec;
use crate::decimal::spaces;
use crate::decimal::spec_centi;
use crate::decimal::spec_dec;
use crate::decimal::spec_repeat;
use crate::gpu::GpuRecord;
use crate::uptime::format_uptime;
use crate::uptime::spec_format_uptime;

verus! {

/// Everything the report shows, gathered once: identity strings, uptime,
/// the summarized processor groups, the reportable graphics devices, and
/// memory figures in whole mebibytes.
#[derive(Debug)]
pub struct HostReport {
    pub username: String,
    pub hostname: String,
    pub os_name: String,
    pub serial_number: String,
    pub kernel_version: String,
    pub uptime_seconds: u64,
    pub cpu_groups: Vec<CpuGroup>,
    pub gpus: Vec<GpuRecord>,
    pub memory_used_mb: u64,
    pub memory_total_mb: u64,
}

/// The first line: user and host joined by '@'.
pub open spec fn spec_header_line(u: Seq<char>, h: Seq<char>) -> Seq<char> {
    u + seq!['@'] + h
}

/// The second line: dashes as long as the header.
pub open spec fn spec_separator_line(u: Seq<char>, h: Seq<char>) -> Seq<char> {
    spec_repeat('-', u.len() as int + h.len() as int + 1)
}

/// The operating system line.
pub open spec fn spec_os_line(os: Seq<char>) -> Seq<char> {
    "OS:        "@ + os
}

/// The serial number line.
pub open spec fn spec_serial_line(sn: Seq<char>) -> Seq<char> {
    "Serial:    "@ + sn
}

/// The kernel version line.
pub open spec fn spec_kernel_line(kv: Seq<char>) -> Seq<char> {
    "Kernel:    "@ + kv
}

/// The uptime line.
pub open spec fn spec_uptime_line(s: int) -> Seq<char> {
    "Uptime:    "@ + spec_format_uptime(s)
}

/// One processor group's line: brand, core count, average utilization with
/// two decimal places, and peak frequency in whole MHz shown with two zero
/// decimal places.
pub open spec fn spec_cpu_line(g: CpuGroup) -> Seq<char> {
    "CPU:       "@ + g.brand@ + " - "@ + spec_dec(g.num_cores as int) + " cores, "@ + spec_centi(
        g.avg_usage_centi as int,
    ) + "% avg, "@ + spec_dec(g.max_frequency_mhz as int) + ".00 MHz (max)"@
}

/// A device index padded on the left with dots to a width of three.
pub open spec fn spec_gpu_index(n: int) -> Seq<char> {
    if n < 10 {
        seq!['.', '.'] + spec_dec(n)
    } else if n < 100 {
        seq!['.'] + spec_dec(n)
    } else {
        spec_dec(n)
    }
}

/// One graphics device's line: its padded index and its display name.
pub open spec fn spec_gpu_line(r: GpuRecord) -> Seq<char> {
    "GPU "@ + spec_gpu_index(r.device_index as int) + ":   "@ + r.display_name@
}

/// The closing memory line.
pub open spec fn spec_memory_line(used: int, total: int) -> Seq<char> {
    "Memory:    "@ + spec_dec(used) + "/"@ + spec_dec(total) + " MB used"@
}

/// What composing promises: one line for every fact in its fixed place —
/// header, separator, OS, serial, kernel and uptime lines, then one line per
/// processor group, one per graphics device, and the memory line; seven lines
/// plus one per group and one per device in all.
pub open spec fn compose_post(rep: HostReport, lines: Seq<String>) -> bool {
    let nc = rep.cpu_groups@.len() as int;
    let ng = rep.gpus@.len() as int;
    &&& lines.len() == 7 + nc + ng
    &&& lines[0]@ == spec_header_line(rep.username@, rep.hostname@)
    &&& lines[1]@ == spec_separator_line(rep.username@, rep.hostname@)
    &&& lines[2]@ == spec_os_line(rep.os_name@)
    &&& lines[3]@ == spec_serial_line(rep.serial_number@)
    &&& lines[4]@ == spec_kernel_line(rep.kernel_version@)
    &&& lines[5]@ == spec_uptime_line(rep.uptime_seconds as int)
    &&& forall|t: int| #![auto] 0 <= t < nc ==> lines[6 + t]@ == spec_cpu_line(rep.cpu_groups@[t])
    &&& forall|t: int| #![auto] 0 <= t < ng ==> lines[6 + nc + t]@ == spec_gpu_line(rep.gpus@[t])
    &&& lines[6 + nc + ng]@ == spec_memory_line(
        rep.memory_used_mb as int,
        rep.memory_total_mb as int,
    )
}

/// Builds the report's lines in their fixed order.
pub fn compose(report: &HostReport) -> (lines: Vec<String>)
    requires
        report.username@.len() + report.hostname@.len() + 1 <= usize::MAX,
    ensures
        compose_post(*report, lines@),
{
    let ghost nc: int = report.cpu_groups@.len() as int;
    let ghost ng: int = report.gpus@.len() as int;
    let mut lines: Vec<String> = Vec::new();

    let mut header = String::new();
    header.append(report.username.as_str());
    header.append("@");
    header.append(report.hostname.as_str());
    proof {
        reveal_strlit("@");
        assert(header@ =~= spec_header_line(report.username@, report.hostname@));
    }
    lines.push(header);

    let ulen = report.username.as_str().unicode_len();
    let hlen = report.hostname.as_str().unicode_len();
    let sep = dashes(ulen + hlen + 1);
    lines.push(sep);

    let mut os_line = String::from_str("OS:        ");
    os_line.append(report.os_name.as_str());
    lines.push(os_line);

    let mut serial_line = String::from_str("Serial:    ");
    serial_line.append(report.serial_number.as_str());
    lines.push(serial_line);

    let mut kernel_line = String::from_str("Kernel:    ");
    kernel_line.append(report.kernel_version.as_str());
    lines.push(kernel_line);

    let mut uptime_line = String::from_str("Uptime:    ");
    let uptime_text = format_uptime(report.uptime_seconds);
    uptime_line.append(uptime_text.as_str());
    lines.push(uptime_line);

    let ghost base: Seq<String> = lines@;
    proof {
        assert(base.len() == 6);
        assert(base[0]@ == spec_header_line(report.username@, report.hostname@));
        assert(base[1]@ == spec_separator_line(report.username@, report.hostname@));
        assert(base[2]@ == spec_os_line(report.os_name@));
        assert(base[3]@ == spec_serial_line(report.serial_number@));
        assert(base[4]@ == spec_kernel_line(report.kernel_version@));
        assert(base[5]@ == spec_uptime_line(report.uptime_seconds as int));
    }
    let mut i: usize = 0;
    while i < report.cpu_groups.len()
        invariant
            i <= report.cpu_groups@.len(),
            lines@.len() == 6 + i as int,
            lines@.subrange(0, 6) == base,
            base.len() == 6,
            forall|t: int|
                #![auto]
                0 <= t < i ==> lines@[6 + t]@ == spec_cpu_line(report.cpu_groups@[t]),
        decreases report.cpu_groups@.len() - i,
    {
        let ghost old_lines: Seq<String> = lines@;
        let g = &report.cpu_groups[i];
        let mut line = String::from_str("CPU:       ");
        line.append(g.brand.as_str());
        line.append(" - ");
        push_dec(&mut line, g.num_cores as u64);
        line.append(" cores, ");
        let avg_text = format_centi(g.avg_usage_centi);
        line.append(avg_text.as_str());
        line.append("% avg, ");
        push_dec(&mut line, g.max_frequency_mhz);
        line.append(".00 MHz (max)");
        proof {
            assert(line@ =~= spec_cpu_line(report.cpu_groups@[i as int]));
        }
        lines.push(line);
        i = i + 1;
        proof {
            assert(lines@.subrange(0, 6) =~= old_lines.subrange(0, 6));
        }
    }

    let ghost base2: Seq<String> = lines@;
    let mut j: usize = 0;
    while j < report.gpus.len()
        invariant
            j <= report.gpus@.len(),
            lines@.len() == 6 + nc + j as int,
            nc == report.cpu_groups@.len() as int,
            lines@.subrange(0, 6 + nc) == base2,
            base2.len() == 6 + nc,
            forall|t: int| #![auto] 0 <= t < j ==> lines@[6 + nc + t]@ == spec_gpu_line(report.gpus@[t]),
        decreases report.gpus@.len() - j,
    {
        let ghost old_lines: Seq<String> = lines@;
        let r = &report.gpus[j];
        let mut line = String::from_str("GPU ");
        if r.device_index < 10 {
            line.append("..");
            proof {
                reveal_strlit("..");
                assert(line@ =~= "GPU "@ + seq!['.', '.']);
            }
        } else if r.device_index < 100 {
            line.append(".");
            proof {
                reveal_strlit(".");
                assert(line@ =~= "GPU "@ + seq!['.']);
            }
        }
        push_dec(&mut line, r.device_index as u64);
        line.append(":   ");
        line.append(r.display_name.as_str());
        proof {
            assert(line@ =~= spec_gpu_line(report.gpus@[j as int]));
        }
        lines.push(line);
        j = j + 1;
        proof {
            assert(lines@.subrange(0, 6 + nc) =~= old_lines.subrange(0, 6 + nc));
        }
    }

    let mut mem_line = String::from_str("Memory:    ");
    push_dec(&mut mem_line, report.memory_used_mb);
    mem_line.append("/");
    push_dec(&mut mem_line, report.memory_total_mb);
    mem_line.append(" MB used");
    proof {
        assert(mem_line@ =~= spec_memory_line(
            report.memory_used_mb as int,
            report.memory_total_mb as int,
        ));
    }
    lines.push(mem_line);

    proof {
        assert(lines@.len() == 7 + nc + ng);
        assert forall|t: int| 0 <= t < 6 implies lines@[t] == base[t] by {
            assert(base2[t] == base2.subrange(0, 6 + nc)[t]);
            assert(lines@[t] == base2[t]);
            assert(base[t] == base.subrange(0, 6)[t]);
        }
    }
    lines
}

/// Pairs report lines with the rows of a fixed decorative block: rows side
/// by side while both last, bare block rows once the lines run out, and
/// lines indented by the block's width once the block runs out.
pub fn render(lines: &Vec<String>, block: &Vec<String>, block_width: usize) -> (rows: Vec<String>)
    ensures
        rows@.len() == if lines@.len() >= block@.len() {
            lines@.len()
        } else {
            block@.len()
        },
        forall|i: int|
            #![auto]
            0 <= i < lines@.len() && i < block@.len() ==> rows@[i]@ == block@[i]@ + lines@[i]@,
        forall|i: int| #![auto] lines@.len() <= i < block@.len() ==> rows@[i]@ == block@[i]@,
        forall|i: int|
            #![auto]
            block@.len() <= i < lines@.len() ==> rows@[i]@ == spec_repeat(' ', block_width as int)
                + lines@[i]@,
{
    let total = if lines.len() >= block.len() {
        lines.len()
    } else {
        block.len()
    };
    let mut rows: Vec<String> = Vec::new();
    let mut i: usize = 0;
    while i < total
        invariant
            i <= total,
            total as int == if lines@.len() >= block@.len() {
                lines@.len() as int
            } else {
                block@.len() as int
            },
            rows@.len() == i as int,
            forall|t: int|
                #![auto]
                0 <= t < i && t < lines@.len() && t < block@.len() ==> rows@[t]@ == block@[t]@
                    + lines@[t]@,
            forall|t: int|
                #![auto]
                lines@.len() <= t < i ==> rows@[t]@ == block@[t]@,
            forall|t: int|
                #![auto]
                block@.len() <= t < i ==> rows@[t]@ == spec_repeat(' ', block_width as int)
                    + lines@[t]@,
        decreases total - i,
    {
        if i < lines.len() && i < block.len() {
            let mut row = block[i].clone();
            row.append(lines[i].as_str());
            rows.push(row);
        } else if i < block.len() {
            let row = block[i].clone();
            rows.push(row);
        } else {
            let mut row = spaces(block_width);
            row.append(lines[i].as_str());
            rows.push(row);
        }
        i = i + 1;
    }
    rows
}

/// The hostname to report: the queried name, or "unknown" where the lookup
/// failed.
pub fn hostname_or_default(found: Option<String>) -> (r: String)
    ensures
        match found {
            Some(h) => r@ == h@,
            None => r@ == "unknown"@,
        },
{
    match found {
        Some(h) => h,
        None => String::from_str("unknown"),
    }
}

/// The serial number to report: the queried number, or a fixed placeholder
/// where the lookup failed.
pub fn serial_or_default(found: Option<String>) -> (r: String)
    ensures
        match found {
            Some(sn) => r@ == sn@,
            None => r@ == "xxxxxxxxxx"@,
        },
{
    match found {
        Some(sn) => sn,
        None => String::from_str("xxxxxxxxxx"),
    }
}

} // verus!
