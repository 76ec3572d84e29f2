use vstd::prelude::*;
use vstd::string::StringExecFns;
use crate::console::LogLevel;
use crate::text::{hex_text, push_hex};

verus! {

/// One line of the boot report: the section name, then its address range.
pub open spec fn range_text(name: Seq<char>, start: nat, end: nat) -> Seq<char> {
    name + "["@ + hex_text(start) + ", "@ + hex_text(end) + ")"@
}

/// The text `name[start, end)` with both bounds in hexadecimal.
pub fn range_line(name: &str, start: usize, end: usize) -> (r: String)
    ensures
        r@ == range_text(name@, start as nat, end as nat),
{
    let mut s = String::new();
    s.append(name);
    s.append("[");
    push_hex(&mut s, start);
    s.append(", ");
    push_hex(&mut s, end);
    s.append(")");
    assert(s@ =~= range_text(name@, start as nat, end as nat));
    s
}

/// Where the linker placed the sections of the kernel image.
pub struct SectionLayout {
    pub stext: usize,
    pub etext: usize,
    pub srodata: usize,
    pub erodata: usize,
    pub sdata: usize,
    pub edata: usize,
    pub sstack: usize,
    pub estack: usize,
    pub sbss: usize,
    pub ebss: usize,
}

/// The greeting that closes the boot report.
pub open spec fn greeting() -> Seq<char> {
    "Hello, World!"@
}

/// The report the kernel logs at boot, in order: the range of each section,
/// then the greeting at four levels.
pub open spec fn boot_report(l: SectionLayout) -> Seq<(LogLevel, Seq<char>)> {
    seq![
        (LogLevel::Info, range_text(".text, "@, l.stext as nat, l.etext as nat)),
        (LogLevel::Info, range_text(".data "@, l.sdata as nat, l.edata as nat)),
        (LogLevel::Info, range_text(".bss "@, l.sbss as nat, l.ebss as nat)),
        (LogLevel::Info, range_text(".rodata "@, l.srodata as nat, l.erodata as nat)),
        (LogLevel::Debug, range_text("boot_stack "@, l.sstack as nat, l.estack as nat)),
        (LogLevel::Info, greeting()),
        (LogLevel::Warn, greeting()),
        (LogLevel::Error, greeting()),
        (LogLevel::Trace, greeting()),
    ]
}

/// What the boot sequence leaves behind: the records it logged, in order,
/// and the message of the panic that shuts the machine down.
pub struct Boot {
    pub records: Vec<(LogLevel, String)>,
    pub shutdown: &'static str,
}

/// Whether address `a` lies in the `.bss` section `[sbss, ebss)`.
pub open spec fn in_bss(a: int, sbss: usize, ebss: usize) -> bool {
    sbss <= a < ebss
}

/// The memory `mem` (first byte at address `base`) after `.bss` was zeroed:
/// the bytes of `[sbss, ebss)` are 0, the others keep their value.
pub open spec fn bss_cleared(old_mem: Seq<u8>, new_mem: Seq<u8>, base: usize, sbss: usize, ebss: usize) -> bool {
    &&& new_mem.len() == old_mem.len()
    &&& forall|i: int|
        0 <= i < old_mem.len() ==> #[trigger] new_mem[i] == if in_bss(base + i, sbss, ebss) {
            0u8
        } else {
            old_mem[i]
        }
}

/// The boot sequence of the kernel: zeroes `.bss` in the memory `mem` (whose
/// first byte is at address `base`), then logs the range of each section
/// and the greeting at four levels, and ends in a panic that shuts the
/// machine down.
pub fn rust_main(layout: &SectionLayout, mem: &mut [u8], base: usize) -> (r: Boot)
    requires
        layout.sbss < layout.ebss ==> base <= layout.sbss && layout.ebss - base <= old(mem)@.len(),
    ensures
        bss_cleared(old(mem)@, final(mem)@, base, layout.sbss, layout.ebss),
        r.records@.len() == boot_report(*layout).len(),
        forall|i: int|
            0 <= i < r.records@.len() ==> #[trigger] r.records@[i].0 == boot_report(*layout)[i].0
                && r.records@[i].1@ == boot_report(*layout)[i].1,
        r.shutdown@ == "Shutdown machine!"@,
{
    clear_bss(mem, base, layout.sbss, layout.ebss);
    let mut r: Vec<(LogLevel, String)> = Vec::new();
    r.push((LogLevel::Info, range_line(".text, ", layout.stext, layout.etext)));
    r.push((LogLevel::Info, range_line(".data ", layout.sdata, layout.edata)));
    r.push((LogLevel::Info, range_line(".bss ", layout.sbss, layout.ebss)));
    r.push((LogLevel::Info, range_line(".rodata ", layout.srodata, layout.erodata)));
    r.push((LogLevel::Debug, range_line("boot_stack ", layout.sstack, layout.estack)));
    r.push((LogLevel::Info, String::from_str("Hello, World!")));
    r.push((LogLevel::Warn, String::from_str("Hello, World!")));
    r.push((LogLevel::Error, String::from_str("Hello, World!")));
    r.push((LogLevel::Trace, String::from_str("Hello, World!")));
    Boot { records: r, shutdown: "Shutdown machine!" }
}

/// Zeroes the `.bss` section `[sbss, ebss)` of the memory `mem`, whose first
/// byte is at address `base`; every other byte keeps its value. When
/// `sbss >= ebss` nothing is written.
pub fn clear_bss(mem: &mut [u8], base: usize, sbss: usize, ebss: usize)
    requires
        sbss < ebss ==> base <= sbss && ebss - base <= old(mem)@.len(),
    ensures
        bss_cleared(old(mem)@, final(mem)@, base, sbss, ebss),
{
    let mut a: usize = sbss;
    while a < ebss
        invariant
            sbss < ebss ==> base <= sbss && ebss - base <= mem@.len(),
            sbss <= a,
            sbss < ebss ==> a <= ebss,
            sbss >= ebss ==> a == sbss,
            mem@.len() == old(mem)@.len(),
            forall|i: int|
                0 <= i < mem@.len() ==> #[trigger] mem@[i] == if sbss <= base + i < a {
                    0u8
                } else {
                    old(mem)@[i]
                },
        decreases ebss - a,
    {
        mem[a - base] = 0;
        a = a + 1;
    }
    assert forall|i: int| 0 <= i < mem@.len() implies #[trigger] mem@[i] == if in_bss(base + i, sbss, ebss) {
        0u8
    } else {
        old(mem)@[i]
    } by {
        assert(mem@[i] == if sbss <= base + i < a { 0u8 } else { old(mem)@[i] });
        if sbss < ebss {
            assert(a == ebss);
        } else {
            assert(a == sbss);
        }
    }
}

} // verus!
