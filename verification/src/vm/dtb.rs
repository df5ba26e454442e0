//! Flattened Device Tree blob for the Relay Linux guest.
//!
//! The tree is first described as a sequence of structure tokens
//! ([`FdtItem`]); the blob is that sequence encoded: a 40-byte header, an empty
//! reservation map, the structure block and the strings block.
use crate::relay_core::{error_text, only_failed, RelayError};
use vstd::prelude::*;
use vstd::utf8::encode_utf8;

verus! {

pub const FDT_MAGIC: u32 = 0xd00d_feed;

pub const BEGIN_NODE: u32 = 1;

pub const END_NODE: u32 = 2;

pub const PROP: u32 = 3;

pub const END: u32 = 9;

pub const GIC_PHANDLE: u32 = 1;

/// A structure-block token before encoding.
pub enum FdtItem {
    Begin(Seq<char>),
    Prop(Seq<char>, Seq<u8>),
    End,
}

/// Big-endian bytes of a 32-bit cell.
pub open spec fn be32(v: u32) -> Seq<u8> {
    seq![(v >> 24u32) as u8, (v >> 16u32) as u8, (v >> 8u32) as u8, v as u8]
}

pub open spec fn zeros(n: nat) -> Seq<u8> {
    Seq::new(n, |i: int| 0u8)
}

/// `b` followed by the zeros that bring its length to a multiple of four.
pub open spec fn padded(b: Seq<u8>) -> Seq<u8> {
    b + zeros(((4 - b.len() % 4) % 4) as nat)
}

/// UTF-8 bytes of `s` with a terminating NUL.
pub open spec fn cstr(s: Seq<char>) -> Seq<u8> {
    encode_utf8(s).push(0u8)
}

/// Big-endian cells, one after another.
pub open spec fn cells_be(cells: Seq<u32>) -> Seq<u8>
    decreases cells.len(),
{
    if cells.len() == 0 {
        Seq::empty()
    } else {
        cells_be(cells.drop_last()) + be32(cells.last())
    }
}

/// The strings block: each property name, NUL-terminated, in order of use.
pub open spec fn strings_block(items: Seq<FdtItem>) -> Seq<u8>
    decreases items.len(),
{
    if items.len() == 0 {
        Seq::empty()
    } else {
        strings_block(items.drop_last()) + match items.last() {
            FdtItem::Prop(name, _) => cstr(name),
            _ => Seq::empty(),
        }
    }
}

/// The encoding of one token; `strings` is the strings block before it.
pub open spec fn token(item: FdtItem, strings: Seq<u8>) -> Seq<u8> {
    match item {
        FdtItem::Begin(name) => be32(BEGIN_NODE) + padded(cstr(name)),
        FdtItem::Prop(_, value) => be32(PROP) + be32(value.len() as u32) + be32(
            strings.len() as u32,
        ) + padded(value),
        FdtItem::End => be32(END_NODE),
    }
}

/// The structure block without its final `END` token.
pub open spec fn struct_block(items: Seq<FdtItem>) -> Seq<u8>
    decreases items.len(),
{
    if items.len() == 0 {
        Seq::empty()
    } else {
        struct_block(items.drop_last()) + token(items.last(), strings_block(items.drop_last()))
    }
}

/// Whether the blob's offsets and sizes fit the header's 32-bit fields.
pub open spec fn fits(items: Seq<FdtItem>) -> bool {
    56 + struct_block(items).len() + 4 + strings_block(items).len() <= u32::MAX
}

/// The blob: header, empty reservation map, structure block, strings block.
pub open spec fn fdt_blob(items: Seq<FdtItem>) -> Seq<u8> {
    let st = struct_block(items) + be32(END);
    let strings = strings_block(items);
    let off_strings = 56 + st.len();
    let total = off_strings + strings.len();
    be32(FDT_MAGIC) + be32(total as u32) + be32(56) + be32(off_strings as u32) + be32(40) + be32(17)
        + be32(16) + be32(0) + be32(strings.len() as u32) + be32(st.len() as u32) + zeros(16) + st
        + strings
}

pub open spec fn str_prop(name: Seq<char>, value: Seq<char>) -> FdtItem {
    FdtItem::Prop(name, cstr(value))
}

pub open spec fn u32_prop(name: Seq<char>, value: u32) -> FdtItem {
    FdtItem::Prop(name, be32(value))
}

pub open spec fn cells_prop(name: Seq<char>, cells: Seq<u32>) -> FdtItem {
    FdtItem::Prop(name, cells_be(cells))
}

pub open spec fn u64_prop(name: Seq<char>, value: u64) -> FdtItem {
    cells_prop(name, seq![(value >> 32u64) as u32, value as u32])
}

pub open spec fn empty_prop(name: Seq<char>) -> FdtItem {
    FdtItem::Prop(name, Seq::empty())
}

/// The root node's header and properties.
pub open spec fn root_items() -> Seq<FdtItem> {
    seq![
        FdtItem::Begin(""@),
        str_prop("compatible"@, "wawona,relay-virt"@),
        str_prop("model"@, "Wawona Relay"@),
        u32_prop("#address-cells"@, 2),
        u32_prop("#size-cells"@, 2),
        u32_prop("interrupt-parent"@, GIC_PHANDLE),
    ]
}

/// The `cpus` node with its single `cpu@0`.
pub open spec fn cpus_items() -> Seq<FdtItem> {
    seq![
        FdtItem::Begin("cpus"@),
        u32_prop("#address-cells"@, 1),
        u32_prop("#size-cells"@, 0),
        FdtItem::Begin("cpu@0"@),
        str_prop("device_type"@, "cpu"@),
        str_prop("compatible"@, "arm,arm-v8"@),
        str_prop("enable-method"@, "psci"@),
        u32_prop("reg"@, 0),
        FdtItem::End,
        FdtItem::End,
    ]
}

/// The `memory@0` node covering `memory_bytes` of RAM.
pub open spec fn memory_items(memory_bytes: u64) -> Seq<FdtItem> {
    seq![
        FdtItem::Begin("memory@0"@),
        str_prop("device_type"@, "memory"@),
        cells_prop("reg"@, seq![0u32, 0u32, (memory_bytes >> 32u64) as u32, memory_bytes as u32]),
        FdtItem::End,
    ]
}

/// The `chosen` node: boot arguments and, where given, the initrd range.
pub open spec fn chosen_items(bootargs: Seq<char>, initrd: Option<(u64, u64)>) -> Seq<FdtItem> {
    seq![FdtItem::Begin("chosen"@), str_prop("bootargs"@, bootargs)] + match initrd {
        Some((start, end)) => seq![
            u64_prop("linux,initrd-start"@, start),
            u64_prop("linux,initrd-end"@, end),
        ],
        None => Seq::empty(),
    } + seq![FdtItem::End]
}

/// PSCI and interrupt-controller nodes.
pub open spec fn platform_items() -> Seq<FdtItem> {
    seq![
        FdtItem::Begin("psci"@),
        str_prop("compatible"@, "arm,psci-0.2"@),
        str_prop("method"@, "hvc"@),
        FdtItem::End,
        FdtItem::Begin("intc@8000000"@),
        str_prop("compatible"@, "arm,gic-v3"@),
        u32_prop("#interrupt-cells"@, 3),
        empty_prop("interrupt-controller"@),
        u32_prop("phandle"@, GIC_PHANDLE),
        cells_prop("reg"@, seq![0u32, 0x0800_0000, 0, 0x0001_0000, 0, 0x080a_0000, 0, 0x0020_0000]),
        FdtItem::End,
    ]
}

pub open spec fn timer_items() -> Seq<FdtItem> {
    seq![
        FdtItem::Begin("timer"@),
        str_prop("compatible"@, "arm,armv8-timer"@),
        cells_prop("interrupts"@, seq![1u32, 13, 4, 1, 14, 4, 1, 11, 4, 1, 10, 4]),
        empty_prop("always-on"@),
        FdtItem::End,
    ]
}

/// The early console: a PL011 UART at its fixed MMIO window.
pub open spec fn pl011_items() -> Seq<FdtItem> {
    seq![
        FdtItem::Begin("pl011@9000000"@),
        str_prop("compatible"@, "arm,pl011"@),
        cells_prop("reg"@, seq![0u32, 0x0900_0000, 0, 0x1000]),
        cells_prop("interrupts"@, seq![0u32, 33, 4]),
        u32_prop("clock-frequency"@, 24_000_000),
        FdtItem::End,
    ]
}

/// The virtio-mmio transport, then the end of the root node.
pub open spec fn virtio_items() -> Seq<FdtItem> {
    seq![
        FdtItem::Begin("virtio_mmio@a000000"@),
        str_prop("compatible"@, "virtio,mmio"@),
        cells_prop("reg"@, seq![0u32, 0x0a00_0000, 0, 0x1000]),
        cells_prop("interrupts"@, seq![0u32, 32, 4]),
        FdtItem::End,
        FdtItem::End,
    ]
}

/// The Relay guest's device tree.
pub open spec fn dtb_items(memory_bytes: u64, bootargs: Seq<char>, initrd: Option<(u64, u64)>) -> Seq<
    FdtItem,
> {
    root_items() + cpus_items() + memory_items(memory_bytes) + chosen_items(bootargs, initrd) + platform_items()
        + timer_items() + pl011_items() + virtio_items()
}

/// Whether an initrd range lies inside guest RAM and is not empty.
pub open spec fn initrd_ok(memory_bytes: u64, initrd: Option<(u64, u64)>) -> bool {
    match initrd {
        Some((start, end)) => start < end && end <= memory_bytes,
        None => true,
    }
}

/// What `build` answers for these arguments.
pub open spec fn build_result(memory_bytes: u64, bootargs: Seq<char>, initrd: Option<(u64, u64)>) -> Result<
    Seq<u8>,
    Seq<char>,
> {
    let items = dtb_items(memory_bytes, bootargs, initrd);
    if encode_utf8(bootargs).contains(0u8) {
        Err("DTB bootargs contains NUL"@)
    } else if !initrd_ok(memory_bytes, initrd) {
        Err("DTB initrd range is invalid"@)
    } else if !fits(items) {
        Err("DTB exceeds the 32-bit header fields"@)
    } else {
        Ok(fdt_blob(items))
    }
}

/// A blob opens with the magic and its own length, and its two offsets
/// locate the structure block and the strings block.
pub proof fn lemma_header_locates_blocks(items: Seq<FdtItem>)
    requires
        fits(items),
    ensures
        fdt_blob(items).subrange(0, 4) == be32(FDT_MAGIC),
        fdt_blob(items).subrange(4, 8) == be32(fdt_blob(items).len() as u32),
        fdt_blob(items).subrange(8, 12) == be32(56),
        fdt_blob(items).subrange(12, 16) == be32((56 + struct_block(items).len() + 4) as u32),
        fdt_blob(items).subrange(56, 56 + struct_block(items).len() as int + 4) == struct_block(items)
            + be32(END),
        fdt_blob(items).subrange(56 + struct_block(items).len() as int + 4, fdt_blob(items).len() as int)
            == strings_block(items),
{
    let st = struct_block(items) + be32(END);
    let strings = strings_block(items);
    let b = fdt_blob(items);
    let head = be32(FDT_MAGIC) + be32((56 + st.len() + strings.len()) as u32) + be32(56) + be32(
        (56 + st.len()) as u32,
    ) + be32(40) + be32(17) + be32(16) + be32(0) + be32(strings.len() as u32) + be32(
        st.len() as u32,
    ) + zeros(16);
    assert(head.len() == 56);
    assert(b =~= head + st + strings);
    assert(b.subrange(0, 4) =~= be32(FDT_MAGIC));
    assert(b.subrange(4, 8) =~= be32(b.len() as u32));
    assert(b.subrange(8, 12) =~= be32(56));
    assert(b.subrange(12, 16) =~= be32((56 + st.len()) as u32));
    assert(b.subrange(56, 56 + st.len() as int) =~= st);
    assert(b.subrange(56 + st.len() as int, b.len() as int) =~= strings);
}

proof fn lemma_push_item(items: Seq<FdtItem>, item: FdtItem)
    ensures
        struct_block(items.push(item)) == struct_block(items) + token(item, strings_block(items)),
        strings_block(items.push(item)) == strings_block(items) + match item {
            FdtItem::Prop(name, _) => cstr(name),
            _ => Seq::empty(),
        },
{
    assert(items.push(item).drop_last() =~= items);
}

proof fn lemma_cells_push(cells: Seq<u32>, c: u32)
    ensures
        cells_be(cells.push(c)) == cells_be(cells) + be32(c),
{
    assert(cells.push(c).drop_last() =~= cells);
}

/// Blocks only grow as tokens are added.
proof fn lemma_blocks_grow(items: Seq<FdtItem>, more: Seq<FdtItem>)
    ensures
        struct_block(items).len() <= struct_block(items + more).len(),
        strings_block(items).len() <= strings_block(items + more).len(),
    decreases more.len(),
{
    if more.len() > 0 {
        lemma_blocks_grow(items, more.drop_last());
        assert((items + more).drop_last() =~= items + more.drop_last());
    }
}

fn be(out: &mut Vec<u8>, value: u32)
    ensures
        final(out)@ == old(out)@ + be32(value),
{
    out.push((value >> 24u32) as u8);
    out.push((value >> 16u32) as u8);
    out.push((value >> 8u32) as u8);
    out.push(value as u8);
}

fn append(out: &mut Vec<u8>, bytes: &[u8])
    ensures
        final(out)@ == old(out)@ + bytes@,
{
    let mut i: usize = 0;
    while i < bytes.len()
        invariant
            i <= bytes@.len(),
            out@ == old(out)@ + bytes@.subrange(0, i as int),
        decreases bytes@.len() - i,
    {
        out.push(bytes[i]);
        i = i + 1;
        assert(out@ =~= old(out)@ + bytes@.subrange(0, i as int));
    }
    assert(bytes@.subrange(0, bytes@.len() as int) =~= bytes@);
}

fn pad(out: &mut Vec<u8>)
    ensures
        final(out)@ == old(out)@ + zeros(((4 - old(out)@.len() % 4) % 4) as nat),
{
    let ghost start = out@;
    let n: usize = (4 - out.len() % 4) % 4;
    let mut i: usize = 0;
    while i < n
        invariant
            i <= n,
            n == (4 - start.len() % 4) % 4,
            out@ == start + zeros(i as nat),
        decreases n - i,
    {
        out.push(0);
        i = i + 1;
        assert(out@ =~= start + zeros(i as nat));
    }
}

/// Append `bytes` and pad; a four-byte-aligned `out` stays aligned.
fn append_padded(out: &mut Vec<u8>, bytes: &[u8])
    requires
        old(out)@.len() % 4 == 0,
    ensures
        final(out)@ == old(out)@ + padded(bytes@),
        final(out)@.len() % 4 == 0,
{
    let ghost start = out@;
    append(out, bytes);
    pad(out);
    assert((start.len() + bytes@.len()) % 4 == bytes@.len() % 4);
    assert(out@ =~= start + padded(bytes@));
}

fn string_offset(strings: &mut Vec<u8>, name: &str) -> (r: u32)
    ensures
        final(strings)@ == old(strings)@ + cstr(name@),
        r == old(strings)@.len() as u32,
{
    let o = strings.len() as u32;
    append(strings, name.as_bytes());
    strings.push(0);
    o
}

fn node(out: &mut Vec<u8>, strings: &Vec<u8>, name: &str, Ghost(items): Ghost<Seq<FdtItem>>)
    requires
        old(out)@ == struct_block(items),
        strings@ == strings_block(items),
        old(out)@.len() % 4 == 0,
    ensures
        final(out)@ == struct_block(items.push(FdtItem::Begin(name@))),
        strings@ == strings_block(items.push(FdtItem::Begin(name@))),
        final(out)@.len() % 4 == 0,
{
    proof {
        lemma_push_item(items, FdtItem::Begin(name@));
    }
    be(out, BEGIN_NODE);
    let mut bytes: Vec<u8> = Vec::new();
    append(&mut bytes, name.as_bytes());
    bytes.push(0);
    append_padded(out, bytes.as_slice());
}

fn end_node(out: &mut Vec<u8>, strings: &Vec<u8>, Ghost(items): Ghost<Seq<FdtItem>>)
    requires
        old(out)@ == struct_block(items),
        strings@ == strings_block(items),
        old(out)@.len() % 4 == 0,
    ensures
        final(out)@ == struct_block(items.push(FdtItem::End)),
        strings@ == strings_block(items.push(FdtItem::End)),
        final(out)@.len() % 4 == 0,
{
    proof {
        lemma_push_item(items, FdtItem::End);
    }
    be(out, END_NODE);
}

fn prop(
    out: &mut Vec<u8>,
    strings: &mut Vec<u8>,
    name: &str,
    value: &[u8],
    Ghost(items): Ghost<Seq<FdtItem>>,
)
    requires
        old(out)@ == struct_block(items),
        old(strings)@ == strings_block(items),
        old(out)@.len() % 4 == 0,
    ensures
        final(out)@ == struct_block(items.push(FdtItem::Prop(name@, value@))),
        final(strings)@ == strings_block(items.push(FdtItem::Prop(name@, value@))),
        final(out)@.len() % 4 == 0,
{
    proof {
        lemma_push_item(items, FdtItem::Prop(name@, value@));
    }
    be(out, PROP);
    be(out, value.len() as u32);
    let offset = string_offset(strings, name);
    be(out, offset);
    append_padded(out, value);
}

fn prop_u32(
    out: &mut Vec<u8>,
    strings: &mut Vec<u8>,
    name: &str,
    value: u32,
    Ghost(items): Ghost<Seq<FdtItem>>,
)
    requires
        old(out)@ == struct_block(items),
        old(strings)@ == strings_block(items),
        old(out)@.len() % 4 == 0,
    ensures
        final(out)@ == struct_block(items.push(u32_prop(name@, value))),
        final(strings)@ == strings_block(items.push(u32_prop(name@, value))),
        final(out)@.len() % 4 == 0,
{
    let mut bytes: Vec<u8> = Vec::new();
    be(&mut bytes, value);
    assert(bytes@ =~= be32(value));
    prop(out, strings, name, bytes.as_slice(), Ghost(items));
}

fn prop_cells(
    out: &mut Vec<u8>,
    strings: &mut Vec<u8>,
    name: &str,
    cells: &[u32],
    Ghost(items): Ghost<Seq<FdtItem>>,
)
    requires
        old(out)@ == struct_block(items),
        old(strings)@ == strings_block(items),
        old(out)@.len() % 4 == 0,
    ensures
        final(out)@ == struct_block(items.push(cells_prop(name@, cells@))),
        final(strings)@ == strings_block(items.push(cells_prop(name@, cells@))),
        final(out)@.len() % 4 == 0,
{
    let mut value: Vec<u8> = Vec::new();
    let mut i: usize = 0;
    while i < cells.len()
        invariant
            i <= cells@.len(),
            value@ == cells_be(cells@.subrange(0, i as int)),
        decreases cells@.len() - i,
    {
        proof {
            lemma_cells_push(cells@.subrange(0, i as int), cells@[i as int]);
            assert(cells@.subrange(0, i as int).push(cells@[i as int]) =~= cells@.subrange(
                0,
                i + 1,
            ));
        }
        be(&mut value, cells[i]);
        i = i + 1;
    }
    assert(cells@.subrange(0, cells@.len() as int) =~= cells@);
    prop(out, strings, name, value.as_slice(), Ghost(items));
}

fn prop_u64(
    out: &mut Vec<u8>,
    strings: &mut Vec<u8>,
    name: &str,
    value: u64,
    Ghost(items): Ghost<Seq<FdtItem>>,
)
    requires
        old(out)@ == struct_block(items),
        old(strings)@ == strings_block(items),
        old(out)@.len() % 4 == 0,
    ensures
        final(out)@ == struct_block(items.push(u64_prop(name@, value))),
        final(strings)@ == strings_block(items.push(u64_prop(name@, value))),
        final(out)@.len() % 4 == 0,
{
    let cells = [(value >> 32u64) as u32, value as u32];
    assert(cells@ =~= seq![(value >> 32u64) as u32, value as u32]);
    prop_cells(out, strings, name, &cells, Ghost(items));
}

fn prop_empty(
    out: &mut Vec<u8>,
    strings: &mut Vec<u8>,
    name: &str,
    Ghost(items): Ghost<Seq<FdtItem>>,
)
    requires
        old(out)@ == struct_block(items),
        old(strings)@ == strings_block(items),
        old(out)@.len() % 4 == 0,
    ensures
        final(out)@ == struct_block(items.push(empty_prop(name@))),
        final(strings)@ == strings_block(items.push(empty_prop(name@))),
        final(out)@.len() % 4 == 0,
{
    let empty: Vec<u8> = Vec::new();
    assert(empty@ =~= Seq::<u8>::empty());
    prop(out, strings, name, empty.as_slice(), Ghost(items));
}

fn prop_str(
    out: &mut Vec<u8>,
    strings: &mut Vec<u8>,
    name: &str,
    value: &str,
    Ghost(items): Ghost<Seq<FdtItem>>,
)
    requires
        old(out)@ == struct_block(items),
        old(strings)@ == strings_block(items),
        old(out)@.len() % 4 == 0,
    ensures
        final(out)@ == struct_block(items.push(str_prop(name@, value@))),
        final(strings)@ == strings_block(items.push(str_prop(name@, value@))),
        final(out)@.len() % 4 == 0,
{
    let mut bytes: Vec<u8> = Vec::new();
    append(&mut bytes, value.as_bytes());
    bytes.push(0);
    prop(out, strings, name, bytes.as_slice(), Ghost(items));
}


/// The root node's header and properties.
fn root_node(st: &mut Vec<u8>, strings: &mut Vec<u8>, Ghost(before): Ghost<Seq<FdtItem>>)
    requires
        old(st)@ == struct_block(before),
        old(strings)@ == strings_block(before),
        old(st)@.len() % 4 == 0,
    ensures
        final(st)@ == struct_block(before + root_items()),
        final(strings)@ == strings_block(before + root_items()),
        final(st)@.len() % 4 == 0,
{
    let ghost mut items = before;
    node(st, strings, "", Ghost(items));
    proof {
        items = items.push(FdtItem::Begin(""@));
    }
    prop_str(st, strings, "compatible", "wawona,relay-virt", Ghost(items));
    proof {
        items = items.push(str_prop("compatible"@, "wawona,relay-virt"@));
    }
    prop_str(st, strings, "model", "Wawona Relay", Ghost(items));
    proof {
        items = items.push(str_prop("model"@, "Wawona Relay"@));
    }
    prop_u32(st, strings, "#address-cells", 2, Ghost(items));
    proof {
        items = items.push(u32_prop("#address-cells"@, 2));
    }
    prop_u32(st, strings, "#size-cells", 2, Ghost(items));
    proof {
        items = items.push(u32_prop("#size-cells"@, 2));
    }
    prop_u32(st, strings, "interrupt-parent", GIC_PHANDLE, Ghost(items));
    proof {
        items = items.push(u32_prop("interrupt-parent"@, GIC_PHANDLE));
    }
    assert(items =~= before + root_items());
}

/// The `cpus` node.
fn cpus_node(st: &mut Vec<u8>, strings: &mut Vec<u8>, Ghost(before): Ghost<Seq<FdtItem>>)
    requires
        old(st)@ == struct_block(before),
        old(strings)@ == strings_block(before),
        old(st)@.len() % 4 == 0,
    ensures
        final(st)@ == struct_block(before + cpus_items()),
        final(strings)@ == strings_block(before + cpus_items()),
        final(st)@.len() % 4 == 0,
{
    let ghost mut items = before;
    node(st, strings, "cpus", Ghost(items));
    proof {
        items = items.push(FdtItem::Begin("cpus"@));
    }
    prop_u32(st, strings, "#address-cells", 1, Ghost(items));
    proof {
        items = items.push(u32_prop("#address-cells"@, 1));
    }
    prop_u32(st, strings, "#size-cells", 0, Ghost(items));
    proof {
        items = items.push(u32_prop("#size-cells"@, 0));
    }
    node(st, strings, "cpu@0", Ghost(items));
    proof {
        items = items.push(FdtItem::Begin("cpu@0"@));
    }
    prop_str(st, strings, "device_type", "cpu", Ghost(items));
    proof {
        items = items.push(str_prop("device_type"@, "cpu"@));
    }
    prop_str(st, strings, "compatible", "arm,arm-v8", Ghost(items));
    proof {
        items = items.push(str_prop("compatible"@, "arm,arm-v8"@));
    }
    prop_str(st, strings, "enable-method", "psci", Ghost(items));
    proof {
        items = items.push(str_prop("enable-method"@, "psci"@));
    }
    prop_u32(st, strings, "reg", 0, Ghost(items));
    proof {
        items = items.push(u32_prop("reg"@, 0));
    }
    end_node(st, strings, Ghost(items));
    proof {
        items = items.push(FdtItem::End);
    }
    end_node(st, strings, Ghost(items));
    proof {
        items = items.push(FdtItem::End);
    }
    assert(items =~= before + cpus_items());
}

/// The `memory@0` node.
fn memory_node(st: &mut Vec<u8>, strings: &mut Vec<u8>, memory_bytes: u64, Ghost(before): Ghost<Seq<FdtItem>>)
    requires
        old(st)@ == struct_block(before),
        old(strings)@ == strings_block(before),
        old(st)@.len() % 4 == 0,
    ensures
        final(st)@ == struct_block(before + memory_items(memory_bytes)),
        final(strings)@ == strings_block(before + memory_items(memory_bytes)),
        final(st)@.len() % 4 == 0,
{
    let ghost mut items = before;
    node(st, strings, "memory@0", Ghost(items));
    proof {
        items = items.push(FdtItem::Begin("memory@0"@));
    }
    prop_str(st, strings, "device_type", "memory", Ghost(items));
    proof {
        items = items.push(str_prop("device_type"@, "memory"@));
    }
    prop_cells(st, strings, "reg", &[0, 0, (memory_bytes >> 32u64) as u32, memory_bytes as u32], Ghost(items));
    proof {
        items = items.push(cells_prop("reg"@, seq![0u32, 0u32, (memory_bytes >> 32u64) as u32, memory_bytes as u32]));
    }
    end_node(st, strings, Ghost(items));
    proof {
        items = items.push(FdtItem::End);
    }
    assert(items =~= before + memory_items(memory_bytes));
}

/// The `chosen` node.
fn chosen_node(st: &mut Vec<u8>, strings: &mut Vec<u8>, bootargs: &str, initrd: Option<(u64, u64)>, Ghost(before): Ghost<Seq<FdtItem>>)
    requires
        old(st)@ == struct_block(before),
        old(strings)@ == strings_block(before),
        old(st)@.len() % 4 == 0,
    ensures
        final(st)@ == struct_block(before + chosen_items(bootargs@, initrd)),
        final(strings)@ == strings_block(before + chosen_items(bootargs@, initrd)),
        final(st)@.len() % 4 == 0,
{
    let ghost mut items = before;
    node(st, strings, "chosen", Ghost(items));
    proof {
        items = items.push(FdtItem::Begin("chosen"@));
    }
    prop_str(st, strings, "bootargs", bootargs, Ghost(items));
    proof {
        items = items.push(str_prop("bootargs"@, bootargs@));
    }
    if let Some((start, end)) = initrd {
        prop_u64(st, strings, "linux,initrd-start", start, Ghost(items));
        proof {
            items = items.push(u64_prop("linux,initrd-start"@, start));
        }
        prop_u64(st, strings, "linux,initrd-end", end, Ghost(items));
        proof {
            items = items.push(u64_prop("linux,initrd-end"@, end));
        }
    }
    end_node(st, strings, Ghost(items));
    proof {
        items = items.push(FdtItem::End);
    }
    assert(items =~= before + chosen_items(bootargs@, initrd));
}

/// PSCI and interrupt-controller nodes.
fn platform_nodes(st: &mut Vec<u8>, strings: &mut Vec<u8>, Ghost(before): Ghost<Seq<FdtItem>>)
    requires
        old(st)@ == struct_block(before),
        old(strings)@ == strings_block(before),
        old(st)@.len() % 4 == 0,
    ensures
        final(st)@ == struct_block(before + platform_items()),
        final(strings)@ == strings_block(before + platform_items()),
        final(st)@.len() % 4 == 0,
{
    let ghost mut items = before;
    node(st, strings, "psci", Ghost(items));
    proof {
        items = items.push(FdtItem::Begin("psci"@));
    }
    prop_str(st, strings, "compatible", "arm,psci-0.2", Ghost(items));
    proof {
        items = items.push(str_prop("compatible"@, "arm,psci-0.2"@));
    }
    prop_str(st, strings, "method", "hvc", Ghost(items));
    proof {
        items = items.push(str_prop("method"@, "hvc"@));
    }
    end_node(st, strings, Ghost(items));
    proof {
        items = items.push(FdtItem::End);
    }
    node(st, strings, "intc@8000000", Ghost(items));
    proof {
        items = items.push(FdtItem::Begin("intc@8000000"@));
    }
    prop_str(st, strings, "compatible", "arm,gic-v3", Ghost(items));
    proof {
        items = items.push(str_prop("compatible"@, "arm,gic-v3"@));
    }
    prop_u32(st, strings, "#interrupt-cells", 3, Ghost(items));
    proof {
        items = items.push(u32_prop("#interrupt-cells"@, 3));
    }
    prop_empty(st, strings, "interrupt-controller", Ghost(items));
    proof {
        items = items.push(empty_prop("interrupt-controller"@));
    }
    prop_u32(st, strings, "phandle", GIC_PHANDLE, Ghost(items));
    proof {
        items = items.push(u32_prop("phandle"@, GIC_PHANDLE));
    }
    prop_cells(st, strings, "reg", &[0, 0x0800_0000, 0, 0x0001_0000, 0, 0x080a_0000, 0, 0x0020_0000], Ghost(items));
    proof {
        items = items.push(cells_prop("reg"@, seq![0u32, 0x0800_0000, 0, 0x0001_0000, 0, 0x080a_0000, 0, 0x0020_0000]));
    }
    end_node(st, strings, Ghost(items));
    proof {
        items = items.push(FdtItem::End);
    }
    assert(items =~= before + platform_items());
}

/// The architected timer node.
fn timer_node(st: &mut Vec<u8>, strings: &mut Vec<u8>, Ghost(before): Ghost<Seq<FdtItem>>)
    requires
        old(st)@ == struct_block(before),
        old(strings)@ == strings_block(before),
        old(st)@.len() % 4 == 0,
    ensures
        final(st)@ == struct_block(before + timer_items()),
        final(strings)@ == strings_block(before + timer_items()),
        final(st)@.len() % 4 == 0,
{
    let ghost mut items = before;
    node(st, strings, "timer", Ghost(items));
    proof {
        items = items.push(FdtItem::Begin("timer"@));
    }
    prop_str(st, strings, "compatible", "arm,armv8-timer", Ghost(items));
    proof {
        items = items.push(str_prop("compatible"@, "arm,armv8-timer"@));
    }
    prop_cells(st, strings, "interrupts", &[1, 13, 4, 1, 14, 4, 1, 11, 4, 1, 10, 4], Ghost(items));
    proof {
        items = items.push(cells_prop("interrupts"@, seq![1u32, 13, 4, 1, 14, 4, 1, 11, 4, 1, 10, 4]));
    }
    prop_empty(st, strings, "always-on", Ghost(items));
    proof {
        items = items.push(empty_prop("always-on"@));
    }
    end_node(st, strings, Ghost(items));
    proof {
        items = items.push(FdtItem::End);
    }
    assert(items =~= before + timer_items());
}

/// The PL011 early-console node.
fn pl011_node(st: &mut Vec<u8>, strings: &mut Vec<u8>, Ghost(before): Ghost<Seq<FdtItem>>)
    requires
        old(st)@ == struct_block(before),
        old(strings)@ == strings_block(before),
        old(st)@.len() % 4 == 0,
    ensures
        final(st)@ == struct_block(before + pl011_items()),
        final(strings)@ == strings_block(before + pl011_items()),
        final(st)@.len() % 4 == 0,
{
    let ghost mut items = before;
    node(st, strings, "pl011@9000000", Ghost(items));
    proof {
        items = items.push(FdtItem::Begin("pl011@9000000"@));
    }
    prop_str(st, strings, "compatible", "arm,pl011", Ghost(items));
    proof {
        items = items.push(str_prop("compatible"@, "arm,pl011"@));
    }
    prop_cells(st, strings, "reg", &[0, 0x0900_0000, 0, 0x1000], Ghost(items));
    proof {
        items = items.push(cells_prop("reg"@, seq![0u32, 0x0900_0000, 0, 0x1000]));
    }
    prop_cells(st, strings, "interrupts", &[0, 33, 4], Ghost(items));
    proof {
        items = items.push(cells_prop("interrupts"@, seq![0u32, 33, 4]));
    }
    prop_u32(st, strings, "clock-frequency", 24_000_000, Ghost(items));
    proof {
        items = items.push(u32_prop("clock-frequency"@, 24_000_000));
    }
    end_node(st, strings, Ghost(items));
    proof {
        items = items.push(FdtItem::End);
    }
    assert(items =~= before + pl011_items());
}

/// The virtio-mmio node, then the end of the root node.
fn virtio_node(st: &mut Vec<u8>, strings: &mut Vec<u8>, Ghost(before): Ghost<Seq<FdtItem>>)
    requires
        old(st)@ == struct_block(before),
        old(strings)@ == strings_block(before),
        old(st)@.len() % 4 == 0,
    ensures
        final(st)@ == struct_block(before + virtio_items()),
        final(strings)@ == strings_block(before + virtio_items()),
        final(st)@.len() % 4 == 0,
{
    let ghost mut items = before;
    node(st, strings, "virtio_mmio@a000000", Ghost(items));
    proof {
        items = items.push(FdtItem::Begin("virtio_mmio@a000000"@));
    }
    prop_str(st, strings, "compatible", "virtio,mmio", Ghost(items));
    proof {
        items = items.push(str_prop("compatible"@, "virtio,mmio"@));
    }
    prop_cells(st, strings, "reg", &[0, 0x0a00_0000, 0, 0x1000], Ghost(items));
    proof {
        items = items.push(cells_prop("reg"@, seq![0u32, 0x0a00_0000, 0, 0x1000]));
    }
    prop_cells(st, strings, "interrupts", &[0, 32, 4], Ghost(items));
    proof {
        items = items.push(cells_prop("interrupts"@, seq![0u32, 32, 4]));
    }
    end_node(st, strings, Ghost(items));
    proof {
        items = items.push(FdtItem::End);
    }
    end_node(st, strings, Ghost(items));
    proof {
        items = items.push(FdtItem::End);
    }
    assert(items =~= before + virtio_items());
}

fn has_nul(bytes: &[u8]) -> (r: bool)
    ensures
        r == bytes@.contains(0u8),
{
    let mut i: usize = 0;
    while i < bytes.len()
        invariant
            i <= bytes@.len(),
            forall|k: int| 0 <= k < i ==> bytes@[k] != 0u8,
        decreases bytes@.len() - i,
    {
        if bytes[i] == 0 {
            return true;
        }
        i = i + 1;
    }
    false
}

/// The Relay guest's flattened device tree: RAM of `memory_bytes`, the kernel
/// command line `bootargs` and, where given, the initrd range `[start, end)`.
pub fn build(memory_bytes: u64, bootargs: &str, initrd: Option<(u64, u64)>) -> (r: Result<
    Vec<u8>,
    RelayError,
>)
    ensures
        only_failed(r),
        r matches Ok(b) ==> build_result(memory_bytes, bootargs@, initrd) == Ok::<Seq<u8>, Seq<char>>(
            b@,
        ),
        r is Err ==> build_result(memory_bytes, bootargs@, initrd) == Err::<Seq<u8>, Seq<char>>(
            error_text(r->Err_0),
        ),
{
    if has_nul(bootargs.as_bytes()) {
        return Err(RelayError::Failed(String::from_str("DTB bootargs contains NUL")));
    }
    if let Some((start, end)) = initrd {
        if start >= end || end > memory_bytes {
            return Err(RelayError::Failed(String::from_str("DTB initrd range is invalid")));
        }
    }
    let mut strings: Vec<u8> = Vec::new();
    let mut st: Vec<u8> = Vec::new();
    let ghost items0: Seq<FdtItem> = Seq::empty();
    root_node(&mut st, &mut strings, Ghost(items0));
    assert(items0 + root_items() =~= root_items());
    let ghost items1 = root_items();
    cpus_node(&mut st, &mut strings, Ghost(items1));
    let ghost items2 = items1 + cpus_items();
    memory_node(&mut st, &mut strings, memory_bytes, Ghost(items2));
    let ghost items3 = items2 + memory_items(memory_bytes);
    chosen_node(&mut st, &mut strings, bootargs, initrd, Ghost(items3));
    let ghost items4 = items3 + chosen_items(bootargs@, initrd);
    platform_nodes(&mut st, &mut strings, Ghost(items4));
    let ghost items5 = items4 + platform_items();
    timer_node(&mut st, &mut strings, Ghost(items5));
    let ghost items6 = items5 + timer_items();
    pl011_node(&mut st, &mut strings, Ghost(items6));
    let ghost items7 = items6 + pl011_items();
    virtio_node(&mut st, &mut strings, Ghost(items7));
    let ghost items = items7 + virtio_items();
    assert(items == dtb_items(memory_bytes, bootargs@, initrd));
    be(&mut st, END);
    assemble(&st, &strings, Ghost(items))
}

/// Header, empty reservation map, structure block and strings block.
fn assemble(st: &Vec<u8>, strings: &Vec<u8>, Ghost(items): Ghost<Seq<FdtItem>>) -> (r: Result<
    Vec<u8>,
    RelayError,
>)
    requires
        st@ == struct_block(items) + be32(END),
        strings@ == strings_block(items),
    ensures
        only_failed(r),
        r is Ok <==> fits(items),
        r matches Ok(b) ==> b@ == fdt_blob(items),
        r is Err ==> error_text(r->Err_0) == "DTB exceeds the 32-bit header fields"@,
{
    let st_len = st.len();
    let strings_len = strings.len();
    if st_len > 0xffff_ffff - 56 || strings_len > 0xffff_ffff - 56 - st_len {
        return Err(RelayError::Failed(String::from_str("DTB exceeds the 32-bit header fields")));
    }
    let off_struct: u32 = 56;
    let off_strings: u32 = off_struct + st_len as u32;
    let total: u32 = off_strings + strings_len as u32;
    let mut out: Vec<u8> = Vec::new();
    be(&mut out, FDT_MAGIC);
    be(&mut out, total);
    be(&mut out, off_struct);
    be(&mut out, off_strings);
    be(&mut out, 40);
    be(&mut out, 17);
    be(&mut out, 16);
    be(&mut out, 0);
    be(&mut out, strings_len as u32);
    be(&mut out, st_len as u32);
    let reserve: [u8; 16] = [0; 16];
    assert(reserve@ =~= zeros(16));
    append(&mut out, &reserve);
    append(&mut out, st.as_slice());
    append(&mut out, strings.as_slice());
    Ok(out)
}

} // verus!
