//! Loading a user program: from a raw ELF image to a manager full of
//! mapped, filled segments and a thread that starts at its entry point.
//!
//! The image's fields are fixed-offset little-endian integers of the 64-bit
//! object format, so each read is a few lines of verified code proved
//! against its little-endian statement; which segments to accept, how to
//! map them, and where the stacks go is the kernel's logic on top.

use vstd::prelude::*;
use crate::consts::{PAGE_SIZE, USER_STACK_OFFSET, USER_STACK_SIZE};
use crate::machine::PhysicalMemory;
use crate::memory::frame_allocator::LinearFrameAllocator;
use crate::memory::manager::area::{lemma_page_vpn, Area};
use crate::memory::manager::handler::{ByFrame, Handler};
use crate::memory::manager::paging::range::page_index;
use crate::memory::manager::paging::table::vpn;
use crate::memory::manager::{
    layout_page_count, layout_page_total, layout_wf, vpn_disjoint, KernelLayout, Manager,
};
use crate::memory::memory_set::attr::MemoryAttr;

verus! {

/// What kind of object an ELF image is; only executables can be run.
#[derive(Clone, Copy, PartialEq, Eq, Structural)]
pub enum ElfKind {
    Executable,
    SharedObject,
    Other,
}

/// The little-endian integer in the two bytes at `off`.
pub open spec fn le16(data: Seq<u8>, off: int) -> int {
    data[off] + 0x100 * data[off + 1]
}

/// The little-endian integer in the four bytes at `off`.
pub open spec fn le32(data: Seq<u8>, off: int) -> int {
    le16(data, off) + 0x1_0000 * le16(data, off + 2)
}

/// The little-endian integer in the eight bytes at `off`.
pub open spec fn le64(data: Seq<u8>, off: int) -> int {
    le32(data, off) + 0x1_0000_0000 * le32(data, off + 4)
}

/// Read the two bytes at `off` as a little-endian integer.
fn read_u16(data: &[u8], off: usize) -> (r: u64)
    requires
        off + 2 <= data.len(),
    ensures
        r == le16(data@, off as int),
        r <= 0xffff,
{
    data[off] as u64 + 0x100 * (data[off + 1] as u64)
}

/// Read the four bytes at `off` as a little-endian integer.
fn read_u32(data: &[u8], off: usize) -> (r: u64)
    requires
        off + 4 <= data.len(),
    ensures
        r == le32(data@, off as int),
        r <= 0xffff_ffff,
{
    read_u16(data, off) + 0x1_0000 * read_u16(data, off + 2)
}

/// Read the eight bytes at `off` as a little-endian integer.
fn read_u64(data: &[u8], off: usize) -> (r: u64)
    requires
        off + 8 <= data.len(),
    ensures
        r == le64(data@, off as int),
{
    read_u32(data, off) + 0x1_0000_0000 * read_u32(data, off + 4)
}

/// The image's fixed sixty-four-byte header is well-formed: the magic
/// number, the 64-bit class, and the little-endian encoding — the one
/// encoding whose field layout the readers here state.
pub open spec fn spec_header_ok(data: Seq<u8>) -> bool {
    &&& data.len() >= 64
    &&& data[0] == 0x7f
    &&& data[1] == 0x45
    &&& data[2] == 0x4c
    &&& data[3] == 0x46
    &&& data[4] == 2
    &&& data[5] == 1
}

/// Check the fixed header.
pub fn header_ok(data: &[u8]) -> (r: bool)
    ensures
        r == spec_header_ok(data@),
{
    data.len() >= 64 && data[0] == 0x7f && data[1] == 0x45 && data[2] == 0x4c && data[3] == 0x46
        && data[4] == 2 && data[5] == 1
}

/// The object kind: the two-byte type field at offset sixteen.
pub open spec fn elf_kind_of(data: Seq<u8>) -> ElfKind {
    if le16(data, 16) == 2 {
        ElfKind::Executable
    } else if le16(data, 16) == 3 {
        ElfKind::SharedObject
    } else {
        ElfKind::Other
    }
}

/// The entry point: the eight-byte field at offset twenty-four.
pub open spec fn elf_entry_of(data: Seq<u8>) -> u64 {
    le64(data, 24) as u64
}

/// The program-header-table file offset: the eight-byte field at offset
/// thirty-two.
pub open spec fn elf_ph_table_offset_of(data: Seq<u8>) -> u64 {
    le64(data, 32) as u64
}

/// The size of one program-header entry: the two-byte field at offset
/// fifty-four.
pub open spec fn elf_ph_entry_size_of(data: Seq<u8>) -> u64 {
    le16(data, 54) as u64
}

/// The number of program headers: the two-byte field at offset fifty-six.
pub open spec fn elf_ph_count_of(data: Seq<u8>) -> u64 {
    le16(data, 56) as u64
}

/// Where program header `i`'s fifty-six-byte entry starts.
pub open spec fn spec_ph_base(data: Seq<u8>, i: int) -> int {
    elf_ph_table_offset_of(data) + 56 * i
}

/// Whether program header `i` is loadable: its four-byte type field is one.
pub open spec fn elf_ph_is_load(data: Seq<u8>, i: int) -> bool {
    le32(data, spec_ph_base(data, i)) == 1
}

/// Whether program header `i` carries the execute permission: bit zero of
/// its four-byte flags field.
pub open spec fn elf_ph_is_execute(data: Seq<u8>, i: int) -> bool {
    le32(data, spec_ph_base(data, i) + 4) % 2 == 1
}

/// The file offset of program header `i`'s bytes.
pub open spec fn elf_ph_file_offset(data: Seq<u8>, i: int) -> u64 {
    le64(data, spec_ph_base(data, i) + 8) as u64
}

/// The virtual address of program header `i`.
pub open spec fn elf_ph_vaddr(data: Seq<u8>, i: int) -> u64 {
    le64(data, spec_ph_base(data, i) + 16) as u64
}

/// The file size of program header `i`'s bytes.
pub open spec fn elf_ph_file_size(data: Seq<u8>, i: int) -> u64 {
    le64(data, spec_ph_base(data, i) + 32) as u64
}

/// The memory size of program header `i`.
pub open spec fn elf_ph_mem_size(data: Seq<u8>, i: int) -> u64 {
    le64(data, spec_ph_base(data, i) + 40) as u64
}

/// The bytes of loadable program header `i`: none when its file size is
/// zero, whatever its offset says then.
pub open spec fn elf_ph_bytes(data: Seq<u8>, i: int) -> Seq<u8> {
    if elf_ph_file_size(data, i) == 0 {
        Seq::empty()
    } else {
        data.subrange(
            elf_ph_file_offset(data, i) as int,
            elf_ph_file_offset(data, i) + elf_ph_file_size(data, i),
        )
    }
}

/// The program-header table is reachable: entries have the 64-bit size and
/// the whole table lies inside the image.
pub open spec fn spec_table_ok(data: Seq<u8>) -> bool {
    &&& elf_ph_entry_size_of(data) == 56
    &&& elf_ph_table_offset_of(data) + elf_ph_count_of(data) * 56 <= data.len()
}

/// Every loadable header's bytes lie inside the image (an empty segment
/// has none, wherever its offset points).
pub open spec fn spec_loads_ok(data: Seq<u8>) -> bool {
    forall|i: int|
        0 <= i < elf_ph_count_of(data) && #[trigger] elf_ph_is_load(data, i)
            ==> (elf_ph_file_size(data, i) > 0 ==> elf_ph_file_offset(data, i) + elf_ph_file_size(
            data,
            i,
        ) <= data.len())
}

/// Decode the object-kind field.
pub(crate) fn elf_kind(data: &[u8]) -> (r: ElfKind)
    requires
        spec_header_ok(data@),
    ensures
        r == elf_kind_of(data@),
{
    let kind = read_u16(data, 16);
    if kind == 2 {
        ElfKind::Executable
    } else if kind == 3 {
        ElfKind::SharedObject
    } else {
        ElfKind::Other
    }
}

/// Read the entry point.
pub(crate) fn elf_entry_point(data: &[u8]) -> (r: u64)
    requires
        spec_header_ok(data@),
    ensures
        r == elf_entry_of(data@),
{
    read_u64(data, 24)
}

/// Read the number of program headers.
fn ph_count(data: &[u8]) -> (r: u64)
    requires
        spec_header_ok(data@),
    ensures
        r == elf_ph_count_of(data@),
        r <= 0xffff,
{
    read_u16(data, 56)
}

/// Read the program-header-table offset.
fn ph_table_offset(data: &[u8]) -> (r: u64)
    requires
        spec_header_ok(data@),
    ensures
        r == elf_ph_table_offset_of(data@),
{
    read_u64(data, 32)
}

/// Read the size of one program-header entry.
fn ph_entry_size(data: &[u8]) -> (r: u64)
    requires
        spec_header_ok(data@),
    ensures
        r == elf_ph_entry_size_of(data@),
{
    read_u16(data, 54)
}

/// Where program header `i`'s entry starts, with the bound the table check
/// grants.
fn ph_base(data: &[u8], i: usize) -> (r: usize)
    requires
        spec_header_ok(data@),
        spec_table_ok(data@),
        i < elf_ph_count_of(data@),
    ensures
        r == spec_ph_base(data@, i as int),
        r + 56 <= data.len(),
{
    let off = ph_table_offset(data);
    let n = data.len();
    proof {
        assert((i + 1) * 56 <= elf_ph_count_of(data@) * 56) by (nonlinear_arith)
            requires 0 <= i + 1 <= elf_ph_count_of(data@);
        assert(56 * (i as int) + 56 == (i + 1) * 56) by (nonlinear_arith);
        assert(off + 56 * (i as int) + 56 <= n);
        assert(off <= n <= usize::MAX);
    }
    off as usize + 56 * i
}

/// Whether program header `i` is loadable.
fn ph_is_load(data: &[u8], i: usize) -> (r: bool)
    requires
        spec_header_ok(data@),
        spec_table_ok(data@),
        i < elf_ph_count_of(data@),
    ensures
        r == elf_ph_is_load(data@, i as int),
{
    let base = ph_base(data, i);
    read_u32(data, base) == 1
}

/// Whether program header `i` carries the execute permission.
fn ph_is_execute(data: &[u8], i: usize) -> (r: bool)
    requires
        spec_header_ok(data@),
        spec_table_ok(data@),
        i < elf_ph_count_of(data@),
    ensures
        r == elf_ph_is_execute(data@, i as int),
{
    let base = ph_base(data, i);
    read_u32(data, base + 4) % 2 == 1
}

/// Read the file offset of program header `i`'s bytes.
fn ph_file_offset(data: &[u8], i: usize) -> (r: u64)
    requires
        spec_header_ok(data@),
        spec_table_ok(data@),
        i < elf_ph_count_of(data@),
    ensures
        r == elf_ph_file_offset(data@, i as int),
{
    let base = ph_base(data, i);
    read_u64(data, base + 8)
}

/// Read the virtual address of program header `i`.
fn ph_virtual_addr(data: &[u8], i: usize) -> (r: u64)
    requires
        spec_header_ok(data@),
        spec_table_ok(data@),
        i < elf_ph_count_of(data@),
    ensures
        r == elf_ph_vaddr(data@, i as int),
{
    let base = ph_base(data, i);
    read_u64(data, base + 16)
}

/// Read the file size of program header `i`'s bytes.
fn ph_file_size(data: &[u8], i: usize) -> (r: u64)
    requires
        spec_header_ok(data@),
        spec_table_ok(data@),
        i < elf_ph_count_of(data@),
    ensures
        r == elf_ph_file_size(data@, i as int),
{
    let base = ph_base(data, i);
    read_u64(data, base + 32)
}

/// Read the memory size of program header `i`.
fn ph_mem_size(data: &[u8], i: usize) -> (r: u64)
    requires
        spec_header_ok(data@),
        spec_table_ok(data@),
        i < elf_ph_count_of(data@),
    ensures
        r == elf_ph_mem_size(data@, i as int),
{
    let base = ph_base(data, i);
    read_u64(data, base + 40)
}

/// Copy the bytes of loadable program header `i` out of the image.
fn ph_data(data: &[u8], i: usize) -> (r: Vec<u8>)
    requires
        spec_header_ok(data@),
        spec_table_ok(data@),
        i < elf_ph_count_of(data@),
        elf_ph_file_size(data@, i as int) > 0 ==> elf_ph_file_offset(data@, i as int)
            + elf_ph_file_size(data@, i as int) <= data@.len(),
    ensures
        r@ == elf_ph_bytes(data@, i as int),
{
    let size_field = ph_file_size(data, i);
    if size_field == 0 {
        let empty: Vec<u8> = Vec::new();
        proof {
            assert(empty@ =~= elf_ph_bytes(data@, i as int));
        }
        return empty;
    }
    let n = data.len();
    proof {
        assert(elf_ph_file_offset(data@, i as int) + elf_ph_file_size(data@, i as int) <= n
            <= usize::MAX);
    }
    let off = ph_file_offset(data, i) as usize;
    let size = size_field as usize;
    let mut bytes: Vec<u8> = Vec::new();
    let mut k: usize = 0;
    while k < size
        invariant
            off + size <= data.len(),
            off == elf_ph_file_offset(data@, i as int),
            size == elf_ph_file_size(data@, i as int),
            k <= size,
            bytes@.len() == k,
            forall|j: int| 0 <= j < k ==> bytes@[j] == data@[off + j],
        decreases size - k,
    {
        bytes.push(data[off + k]);
        k += 1;
    }
    proof {
        assert(bytes@ =~= elf_ph_bytes(data@, i as int));
    }
    bytes
}

/// One loadable segment as the image's program header states it: where it goes, how
/// big it is in memory, whether it may be executed, and its file bytes.
pub struct Segment {
    pub vaddr: u64,
    pub mem_size: u64,
    pub executable: bool,
    pub data: Vec<u8>,
}

/// The spec-level shape of a segment.
pub struct SegView {
    pub vaddr: u64,
    pub mem_size: u64,
    pub executable: bool,
    pub bytes: Seq<u8>,
}

impl Segment {
    /// The segment as a spec value.
    pub open spec fn view(self) -> SegView {
        SegView {
            vaddr: self.vaddr,
            mem_size: self.mem_size,
            executable: self.executable,
            bytes: self.data@,
        }
    }
}

/// What the image states of program header `i`, as a segment.
pub open spec fn spec_segment_of(data: Seq<u8>, i: int) -> SegView {
    SegView {
        vaddr: elf_ph_vaddr(data, i),
        mem_size: elf_ph_mem_size(data, i),
        executable: elf_ph_is_execute(data, i),
        bytes: elf_ph_bytes(data, i),
    }
}

/// The loadable segments among the image's first `n` program headers, in
/// file order.
pub open spec fn spec_segments_upto(data: Seq<u8>, n: int) -> Seq<SegView>
    decreases n,
{
    if n <= 0 {
        Seq::empty()
    } else if elf_ph_is_load(data, n - 1) {
        spec_segments_upto(data, n - 1).push(spec_segment_of(data, n - 1))
    } else {
        spec_segments_upto(data, n - 1)
    }
}

/// All the image's loadable segments, in file order.
pub open spec fn spec_segments(data: Seq<u8>) -> Seq<SegView> {
    spec_segments_upto(data, elf_ph_count_of(data) as int)
}

/// The permission attribute a user segment is mapped with: reachable from
/// user mode, executable exactly when the segment says so.
pub open spec fn spec_segment_attr(executable: bool) -> MemoryAttr {
    if executable {
        MemoryAttr::stub(true, false, true)
    } else {
        MemoryAttr::stub(true, false, false)
    }
}

/// Compute the attribute of a segment from its execute bit.
pub fn segment_attr(executable: bool) -> (r: MemoryAttr)
    ensures
        r == spec_segment_attr(executable),
{
    let flags = MemoryAttr::new().set_user();
    if executable {
        flags.set_executable()
    } else {
        flags
    }
}

/// Collect the loadable segments of the image, in file order, keeping what
/// its program headers state of each. An image whose program-header table is
/// unreachable, or one of whose loadable segments lies outside the bytes,
/// is refused: exactly those two conditions decide the result.
pub fn load_segments(data: &[u8]) -> (r: Option<Vec<Segment>>)
    requires
        spec_header_ok(data@),
    ensures
        r is Some <==> spec_table_ok(data@) && spec_loads_ok(data@),
        r matches Some(v) ==> {
            &&& v@.len() == spec_segments(data@).len()
            &&& forall|j: int|
                0 <= j < v@.len() ==> (#[trigger] v@[j]).view() == spec_segments(data@)[j]
        },
{
    let count = ph_count(data);
    let table = ph_table_offset(data);
    let entry = ph_entry_size(data);
    if !(entry == 56 && table <= data.len() as u64 && count * 56 <= data.len() as u64 - table) {
        return None;
    }
    let mut segments: Vec<Segment> = Vec::new();
    let mut index: usize = 0;
    while index < count as usize
        invariant
            spec_header_ok(data@),
            spec_table_ok(data@),
            count == elf_ph_count_of(data@),
            index <= count,
            segments@.len() == spec_segments_upto(data@, index as int).len(),
            forall|j: int|
                0 <= j < segments@.len() ==> (#[trigger] segments@[j]).view()
                    == spec_segments_upto(data@, index as int)[j],
            forall|i: int|
                0 <= i < index && #[trigger] elf_ph_is_load(data@, i) ==> (elf_ph_file_size(
                    data@,
                    i,
                ) > 0 ==> elf_ph_file_offset(data@, i) + elf_ph_file_size(data@, i)
                    <= data@.len()),
        decreases count - index,
    {
        if ph_is_load(data, index) {
            let file_size = ph_file_size(data, index);
            let file_offset = ph_file_offset(data, index);
            if file_size > 0 && (file_offset > data.len() as u64 || file_size > data.len() as u64
                - file_offset) {
                return None;
            }
            let segment = Segment {
                vaddr: ph_virtual_addr(data, index),
                mem_size: ph_mem_size(data, index),
                executable: ph_is_execute(data, index),
                data: ph_data(data, index),
            };
            segments.push(segment);
            proof {
                assert(segments@.last().view() == spec_segment_of(data@, index as int));
            }
        }
        index += 1;
    }
    Some(segments)
}

/// Every page index of the kernel's boot areas keeps a virtual page number
/// of at least `0x80000`: the kernel window never truncates into the user
/// zone.
pub open spec fn layout_high(l: KernelLayout) -> bool {
    forall|idx: int|
        page_index(l.stext as int) <= idx <= page_index(
            crate::consts::PHYSICAL_MEMORY_END + crate::consts::PHYSICAL_MEMORY_OFFSET - 1,
        ) ==> #[trigger] (idx % 0x800_0000int) >= 0x80000
}

/// A segment the manager accepts: page-aligned start, inside the user zone
/// below the kernel window's truncated page numbers, its data fitting in
/// memory, and of bounded size.
pub open spec fn spec_segment_ok(s: SegView) -> bool {
    &&& 4096 <= s.vaddr
    &&& s.vaddr % PAGE_SIZE == 0
    &&& s.mem_size > 0
    &&& s.vaddr + s.mem_size <= 0x8000_0000
    &&& s.bytes.len() <= s.mem_size
    &&& seg_pages(s) <= 0x2_0000
}

/// How many pages a segment covers.
pub open spec fn seg_pages(s: SegView) -> int {
    page_index(s.vaddr + s.mem_size - 1) + 1 - page_index(s.vaddr as int)
}

/// Every segment of the list is acceptable.
pub open spec fn spec_segments_ok(segs: Seq<SegView>) -> bool {
    forall|j: int| 0 <= j < segs.len() ==> spec_segment_ok(#[trigger] segs[j])
}

/// The segments' page ranges are pairwise disjoint.
pub open spec fn spec_segments_disjoint(segs: Seq<SegView>) -> bool {
    forall|i: int, j: int|
        0 <= i < j < segs.len() ==> seg_page_disjoint(#[trigger] segs[i], #[trigger] segs[j])
}

/// The two segments' page ranges do not meet.
pub open spec fn seg_page_disjoint(a: SegView, b: SegView) -> bool {
    ||| page_index(a.vaddr + a.mem_size - 1) + 1 <= page_index(b.vaddr as int)
    ||| page_index(b.vaddr + b.mem_size - 1) + 1 <= page_index(a.vaddr as int)
}

/// How many pages the first `n` segments cover together.
pub open spec fn total_seg_pages(segs: Seq<SegView>, n: int) -> int
    decreases n,
{
    if n <= 0 {
        0
    } else {
        total_seg_pages(segs, n - 1) + seg_pages(segs[n - 1])
    }
}

/// The frame budget an address space build needs: the table root, the
/// kernel's own areas, and the segments.
pub open spec fn spec_build_budget(segs: Seq<SegView>, l: KernelLayout) -> int {
    1 + 3 * layout_page_count(l) + 3 * total_seg_pages(segs, segs.len() as int)
}

/// The segments of a list, as spec values.
pub open spec fn seg_views(segments: Seq<Segment>) -> Seq<SegView> {
    segments.map_values(|s: Segment| s.view())
}

/// An area entirely inside the user zone: every page below index `0x80000`.
pub open spec fn user_zone(a: Area) -> bool {
    &&& a.spec_start() < a.spec_end()
    &&& 4096 <= a.spec_start()
    &&& a.spec_end() <= 0x8000_0000
}

/// Virtual page numbers of a user-zone area are its page indices, so two
/// page-disjoint user-zone areas are vpn-disjoint, and a user-zone area is
/// vpn-disjoint from every kernel boot area of a high layout.
proof fn lemma_user_zone_vpn(a: Area, v: u64)
    requires
        user_zone(a),
        a.covers_vpn(v),
    ensures
        page_index(a.spec_start() as int) <= v <= page_index(a.spec_end() - 1),
        v < 0x80000,
{
    let i = choose|i: int| 0 <= i < a.page_count() && vpn(#[trigger] a.page_addr(i)) == v;
    let idx = page_index(a.spec_start() as int) + i;
    assert(0 <= idx <= page_index(a.spec_end() - 1) && page_index(a.spec_end() - 1) < 0x80000
        && idx * 4096 <= u64::MAX) by (nonlinear_arith)
        requires
            PAGE_SIZE == 4096,
            0 <= i < a.page_count(),
            a.page_count() == page_index(a.spec_end() - 1) + 1 - page_index(a.spec_start() as int),
            page_index(a.spec_start() as int) == a.spec_start() as int / 4096,
            page_index(a.spec_end() - 1) == (a.spec_end() - 1) / 4096,
            0 < a.spec_end() <= 0x8000_0000,
            idx == page_index(a.spec_start() as int) + i,
            0 <= a.spec_start(),
    ;
    lemma_page_vpn(idx as u64);
    let iu = idx as u64;
    assert(iu & 0x7ff_ffff == iu) by (bit_vector)
        requires
            iu < 0x80000,
    ;
    assert(v == idx);
}

/// Check one segment for acceptability, as `spec_segment_ok` states it.
fn segment_ok(seg: &Segment) -> (r: bool)
    ensures
        r == spec_segment_ok(seg.view()),
{
    let ok = 4096 <= seg.vaddr && seg.vaddr % 4096 == 0 && seg.mem_size > 0 && seg.vaddr
        <= 0x8000_0000 && seg.mem_size <= 0x8000_0000 - seg.vaddr && seg.data.len() as u64
        <= seg.mem_size;
    if !ok {
        return false;
    }
    let pages = (seg.vaddr + seg.mem_size - 1) / 4096 + 1 - seg.vaddr / 4096;
    proof {
        assert(seg_pages(seg.view()) >= 1 && seg_pages(seg.view()) <= 0x7ffff)
            by (nonlinear_arith)
            requires
                PAGE_SIZE == 4096,
                4096 <= seg.vaddr,
                seg.mem_size > 0,
                seg.vaddr + seg.mem_size <= 0x8000_0000,
                seg_pages(seg.view()) == (seg.vaddr + seg.mem_size - 1) as int / 4096 + 1
                    - seg.vaddr as int / 4096,
        ;
    }
    pages <= 0x2_0000
}

/// Check a whole segment list: each segment acceptable, the page ranges
/// pairwise disjoint, and the total page count within the allocator's
/// largest possible range; the total is handed back.
pub(crate) fn segments_ok(segments: &Vec<Segment>) -> (r: Option<u64>)
    ensures
        r is Some <==> spec_segments_ok(seg_views(segments@)) && spec_segments_disjoint(
            seg_views(segments@),
        ) && total_seg_pages(seg_views(segments@), segments@.len() as int) <= 0x8000,
        r matches Some(total) ==> total == total_seg_pages(
            seg_views(segments@),
            segments@.len() as int,
        ),
{
    let ghost views = seg_views(segments@);
    let mut index: usize = 0;
    while index < segments.len()
        invariant
            views == seg_views(segments@),
            index <= segments.len(),
            forall|j: int| 0 <= j < index ==> spec_segment_ok(#[trigger] views[j]),
            forall|i: int, j: int|
                0 <= i < j < index ==> seg_page_disjoint(
                    #[trigger] views[i],
                    #[trigger] views[j],
                ),
        decreases segments.len() - index,
    {
        let seg = &segments[index];
        proof {
            assert(views[index as int] == segments@[index as int].view());
        }
        if !segment_ok(seg) {
            return None;
        }
        let mut inner: usize = 0;
        while inner < index
            invariant
                views == seg_views(segments@),
                inner <= index < segments.len(),
                spec_segment_ok(views[index as int]),
                seg.vaddr == views[index as int].vaddr,
                seg.mem_size == views[index as int].mem_size,
                forall|j: int| 0 <= j < index ==> spec_segment_ok(#[trigger] views[j]),
                forall|j: int|
                    0 <= j < inner ==> seg_page_disjoint(
                        #[trigger] views[j],
                        views[index as int],
                    ),
            decreases index - inner,
        {
            let other = &segments[inner];
            proof {
                assert(views[inner as int] == segments@[inner as int].view());
                assert(spec_segment_ok(views[inner as int]));
                assert(views[index as int] == segments@[index as int].view());
                assert(spec_segment_ok(views[index as int]));
                assert(other.vaddr == views[inner as int].vaddr && other.mem_size == views[
                    inner as int].mem_size);
                assert(seg.vaddr == views[index as int].vaddr && seg.mem_size == views[
                    index as int].mem_size);
            }
            let p1 = other.vaddr / 4096;
            let p2 = (other.vaddr + other.mem_size - 1) / 4096 + 1;
            let p3 = seg.vaddr / 4096;
            let p4 = (seg.vaddr + seg.mem_size - 1) / 4096 + 1;
            proof {
                assert(p1 == page_index(views[inner as int].vaddr as int) && p2 == page_index(
                    views[inner as int].vaddr + views[inner as int].mem_size - 1,
                ) + 1 && p3 == page_index(views[index as int].vaddr as int) && p4 == page_index(
                    views[index as int].vaddr + views[index as int].mem_size - 1,
                ) + 1);
            }
            if !(p2 <= p3 || p4 <= p1) {
                proof {
                    assert(!seg_page_disjoint(views[inner as int], views[index as int]));
                    assert(!spec_segments_disjoint(views));
                }
                return None;
            }
            inner += 1;
        }
        proof {
            assert forall|i: int, j: int|
                0 <= i < j < index + 1 implies seg_page_disjoint(
                #[trigger] views[i],
                #[trigger] views[j],
            ) by {
                if j == index as int {
                    assert(seg_page_disjoint(views[i], views[index as int]));
                }
            }
        }
        index += 1;
    }
    // Every segment is acceptable, so the page totals only grow; cap them
    // at the allocator's largest possible range.
    let mut total: u64 = 0;
    index = 0;
    while index < segments.len()
        invariant
            views == seg_views(segments@),
            index <= segments.len(),
            forall|j: int| 0 <= j < segments@.len() ==> spec_segment_ok(#[trigger] views[j]),
            forall|i: int, j: int|
                0 <= i < j < segments@.len() ==> seg_page_disjoint(
                    #[trigger] views[i],
                    #[trigger] views[j],
                ),
            total == total_seg_pages(views, index as int),
            total <= 0x8000,
        decreases segments.len() - index,
    {
        let seg = &segments[index];
        proof {
            assert(views[index as int] == segments@[index as int].view());
            assert(spec_segment_ok(views[index as int]));
            assert(seg_pages(views[index as int]) >= 1 && seg_pages(views[index as int])
                == (seg.vaddr + seg.mem_size - 1) as int / 4096 + 1 - seg.vaddr as int / 4096)
                by (nonlinear_arith)
                requires
                    PAGE_SIZE == 4096,
                    spec_segment_ok(views[index as int]),
                    views[index as int].vaddr == seg.vaddr,
                    views[index as int].mem_size == seg.mem_size,
                    seg_pages(views[index as int]) == page_index(
                        views[index as int].vaddr + views[index as int].mem_size - 1,
                    ) + 1 - page_index(views[index as int].vaddr as int),
                    page_index(views[index as int].vaddr + views[index as int].mem_size - 1) == (
                    views[index as int].vaddr + views[index as int].mem_size - 1) / 4096,
                    page_index(views[index as int].vaddr as int) == views[index as int].vaddr
                        as int / 4096,
            ;
        }
        let pages = (seg.vaddr + seg.mem_size - 1) / 4096 + 1 - seg.vaddr / 4096;
        if pages > 0x8000 - total {
            proof {
                lemma_total_mono(views, (index + 1) as int, segments@.len() as int);
            }
            return None;
        }
        total = total + pages;
        index += 1;
    }
    Some(total)
}

/// With every segment acceptable, longer prefixes cover at least as many
/// pages.
pub(crate) proof fn lemma_total_mono(segs: Seq<SegView>, n: int, m: int)
    requires
        forall|j: int| 0 <= j < segs.len() ==> spec_segment_ok(#[trigger] segs[j]),
        0 <= n <= m <= segs.len(),
    ensures
        total_seg_pages(segs, n) <= total_seg_pages(segs, m),
    decreases m - n,
{
    if n < m {
        lemma_total_mono(segs, n + 1, m);
        assert(seg_pages(segs[n]) >= 1) by (nonlinear_arith)
            requires
                PAGE_SIZE == 4096,
                spec_segment_ok(segs[n]),
                seg_pages(segs[n]) == page_index(segs[n].vaddr + segs[n].mem_size - 1) + 1
                    - page_index(segs[n].vaddr as int),
                page_index(segs[n].vaddr + segs[n].mem_size - 1) == (segs[n].vaddr
                    + segs[n].mem_size - 1) / 4096,
                page_index(segs[n].vaddr as int) == segs[n].vaddr as int / 4096,
        ;
    }
}

/// Build the address space of a user program: the kernel's own mappings,
/// then one by-frame area per segment with its data copied in. The build
/// succeeds exactly when every segment is acceptable, their page ranges are
/// pairwise disjoint, and the frame budget suffices; a refused build leaves
/// the allocator and memory untouched.
pub fn new_manager(
    segments: &Vec<Segment>,
    layout: &KernelLayout,
    allocator: &mut LinearFrameAllocator,
    ram: &mut PhysicalMemory,
) -> (r: Option<Manager>)
    requires
        old(allocator).wf(),
        old(ram).wf(),
        layout_wf(*layout),
        layout_high(*layout),
        old(allocator).offset + old(allocator).size <= 0x10_0000_0000_0000,
    ensures
        final(allocator).wf(),
        final(allocator).offset == old(allocator).offset,
        final(allocator).size == old(allocator).size,
        final(ram).wf(),
        r is Some <==> spec_segments_ok(seg_views(segments@)) && spec_segments_disjoint(
            seg_views(segments@),
        ) && spec_build_budget(seg_views(segments@), *layout) <= old(allocator).free_count(),
        r is Some ==> final(allocator).free_count() >= old(allocator).free_count()
            - spec_build_budget(seg_views(segments@), *layout),
        r is None ==> *final(allocator) == *old(allocator) && *final(ram) == *old(ram),
        r matches Some(manager) ==> {
            &&& manager.wf()
            &&& manager.spec_areas().len() == 5 + segments.len()
            &&& manager.spec_areas()[0] == crate::memory::manager::boot_area1(*layout)
            &&& manager.spec_areas()[1] == crate::memory::manager::boot_area2(*layout)
            &&& manager.spec_areas()[2] == crate::memory::manager::boot_area3(*layout)
            &&& manager.spec_areas()[3] == crate::memory::manager::boot_area4(*layout)
            &&& manager.spec_areas()[4] == crate::memory::manager::boot_area5(*layout)
            &&& (forall|j: int|
                5 <= j < manager.spec_areas().len() ==> user_zone(
                    #[trigger] manager.spec_areas()[j],
                ))
            &&& (forall|j: int|
                0 <= j < segments.len() ==> {
                    let a = #[trigger] manager.spec_areas()[5 + j];
                    &&& a.spec_start() == segments[j].vaddr
                    &&& a.spec_end() == segments[j].vaddr + segments[j].mem_size
                    &&& a.spec_handler() == Handler::ByFrame(ByFrame)
                    &&& a.spec_attr() == spec_segment_attr(segments[j].executable)
                })
            &&& (forall|j: int, i: int|
                0 <= j < segments.len() && 0 <= i < manager.spec_areas()[5 + j].page_count()
                    ==> final(ram).page_of(
                    manager.spec_table().mapping()[vpn(
                        #[trigger] manager.spec_areas()[5 + j].page_addr(i),
                    )].ppn,
                ) == crate::memory::manager::handler::Handler::copied_page(
                    segments[j].data@,
                    i * PAGE_SIZE,
                    (if segments[j].data.len() - i * PAGE_SIZE > PAGE_SIZE {
                        PAGE_SIZE as int
                    } else if segments[j].data.len() - i * PAGE_SIZE > 0 {
                        segments[j].data.len() - i * PAGE_SIZE
                    } else {
                        0
                    }),
                ))
            &&& old(allocator).is_lowest_free(manager.spec_table().spec_root())
        },
{
    let total = match segments_ok(segments) {
        Some(total) => total,
        None => {
            proof {
                crate::memory::manager::lemma_layout_count_nonneg(*layout);
                crate::memory::frame_allocator::lemma_free_count_le_size(*allocator);
            }
            return None;
        },
    };
    let layout_pages = layout_page_total(layout);
    proof {
        crate::memory::frame_allocator::lemma_free_count_le_size(*allocator);
        crate::memory::manager::lemma_layout_count_nonneg(*layout);
        lemma_total_nonneg(seg_views(segments@), segments@.len() as int);
    }
    if !allocator.enough_free_u64(1 + 3 * layout_pages + 3 * total) {
        return None;
    }
    proof {
        crate::memory::frame_allocator::lemma_free_count_can_alloc(*allocator);
    }
    let mut manager = Manager::new_empty(allocator);
    manager.initialize(layout, allocator, ram);
    let ghost boot_len: int = 5;
    let ghost views = seg_views(segments@);
    let ghost ram0 = *ram;
    let mut index: usize = 0;
    while index < segments.len()
        invariant
            allocator.wf(),
            allocator.offset == old(allocator).offset,
            allocator.size == old(allocator).size,
            allocator.offset + allocator.size <= 0x10_0000_0000_0000,
            allocator.free_count() >= old(allocator).free_count() - 1 - 3 * layout_page_count(
                *layout,
            ) - 3 * total_seg_pages(views, index as int),
            old(allocator).free_count() >= spec_build_budget(views, *layout),
            forall|f: u64| old(allocator).live(f) ==> allocator.live(f),
            ram.wf(),
            layout_wf(*layout),
            layout_high(*layout),
            views == seg_views(segments@),
            spec_segments_ok(views),
            spec_segments_disjoint(views),
            index <= segments.len(),
            boot_len == 5,
            manager.wf(),
            manager.spec_areas().len() == boot_len + index,
            manager.spec_areas()[0] == crate::memory::manager::boot_area1(*layout),
            manager.spec_areas()[1] == crate::memory::manager::boot_area2(*layout),
            manager.spec_areas()[2] == crate::memory::manager::boot_area3(*layout),
            manager.spec_areas()[3] == crate::memory::manager::boot_area4(*layout),
            manager.spec_areas()[4] == crate::memory::manager::boot_area5(*layout),
            old(allocator).is_lowest_free(manager.spec_table().spec_root()),
            forall|j: int|
                boot_len <= j < manager.spec_areas().len() ==> user_zone(
                    #[trigger] manager.spec_areas()[j],
                ),
            forall|j: int|
                0 <= j < index ==> {
                    let a = #[trigger] manager.spec_areas()[boot_len + j];
                    &&& a.spec_start() == segments[j].vaddr
                    &&& a.spec_end() == segments[j].vaddr + segments[j].mem_size
                    &&& a.spec_handler() == Handler::ByFrame(ByFrame)
                    &&& a.spec_attr() == spec_segment_attr(segments[j].executable)
                },
            forall|j: int, i: int|
                0 <= j < index && 0 <= i < manager.spec_areas()[boot_len + j].page_count()
                    ==> allocator.live(
                    manager.spec_table().mapping()[vpn(
                        #[trigger] manager.spec_areas()[boot_len + j].page_addr(i),
                    )].ppn,
                ) && ram.page_of(
                    manager.spec_table().mapping()[vpn(
                        manager.spec_areas()[boot_len + j].page_addr(i),
                    )].ppn,
                ) == crate::memory::manager::handler::Handler::copied_page(
                    segments[j].data@,
                    i * PAGE_SIZE,
                    (if segments[j].data.len() - i * PAGE_SIZE > PAGE_SIZE {
                        PAGE_SIZE as int
                    } else if segments[j].data.len() - i * PAGE_SIZE > 0 {
                        segments[j].data.len() - i * PAGE_SIZE
                    } else {
                        0
                    }),
                ),
        decreases segments.len() - index,
    {
        let seg = &segments[index];
        proof {
            assert(views[index as int] == segments@[index as int].view());
            assert(spec_segment_ok(views[index as int]));
        }
        let start = seg.vaddr;
        let end = seg.vaddr + seg.mem_size;
        proof {
            lemma_total_step(views, index as int);
            lemma_total_mono(views, (index + 1) as int, segments@.len() as int);
            lemma_new_segment_disjoint(manager, *layout, segments@, index as int, boot_len);
            assert(seg_pages(views[index as int]) == page_index(end - 1) + 1 - page_index(
                start as int,
            ));
            assert(seg_area(segments@, index as int) == Area::stub(
                start,
                end,
                Handler::ByFrame(ByFrame),
                spec_segment_attr(seg.executable),
            )) by {
                broadcast use crate::memory::manager::area::lemma_area_stub;

            }
            assert(seg_area(segments@, index as int).page_count() == page_index(end - 1) + 1
                - page_index(start as int)) by {
                broadcast use crate::memory::manager::area::lemma_area_stub;

            }
            assert((page_index(end - 1) + 1 - page_index(start as int)) * PAGE_SIZE
                <= usize::MAX) by (nonlinear_arith)
                requires
                    PAGE_SIZE == 4096,
                    0 < page_index(end - 1) + 1 - page_index(start as int) <= 0x2_0000,
            ;
        }
        let ghost pre_mgr = manager;
        let ghost pre_table = manager.spec_table();
        let ghost pre_ram = *ram;
        let ghost pre_alloc = *allocator;
        manager.push(
            start,
            end,
            segment_attr(seg.executable),
            Handler::ByFrame(ByFrame::new()),
            Some((&seg.data, seg.data.len())),
            allocator,
            ram,
        );
        proof {
            broadcast use crate::memory::manager::area::lemma_area_stub;
            broadcast use crate::memory::memory_set::attr::lemma_attr_stub;

            let a_new = seg_area(segments@, index as int);
            assert(a_new == Area::stub(
                start,
                end,
                Handler::ByFrame(ByFrame),
                spec_segment_attr(seg.executable),
            ));
            assert forall|j: int, i: int|
                0 <= j < index && 0 <= i < manager.spec_areas()[boot_len + j].page_count()
                implies allocator.live(
                manager.spec_table().mapping()[vpn(
                    #[trigger] manager.spec_areas()[boot_len + j].page_addr(i),
                )].ppn,
            ) && ram.page_of(
                manager.spec_table().mapping()[vpn(
                    manager.spec_areas()[boot_len + j].page_addr(i),
                )].ppn,
            ) == crate::memory::manager::handler::Handler::copied_page(
                segments@[j].data@,
                i * PAGE_SIZE,
                (if segments@[j].data.len() - i * PAGE_SIZE > PAGE_SIZE {
                    PAGE_SIZE as int
                } else if segments@[j].data.len() - i * PAGE_SIZE > 0 {
                    segments@[j].data.len() - i * PAGE_SIZE
                } else {
                    0
                }),
            ) by {
                let aj = manager.spec_areas()[boot_len + j];
                assert(aj == pre_mgr.spec_areas()[boot_len + j]);
                let v = vpn(aj.page_addr(i));
                assert(aj.covers_vpn(v));
                assert(vpn_disjoint(a_new, aj));
                assert(!a_new.covers_vpn(v));
                assert(manager.spec_table().mapping().contains_key(v)
                    == pre_table.mapping().contains_key(v));
                assert(pre_mgr.area_mapped(boot_len + j));
                assert(pre_table.mapping().contains_key(v));
                assert(manager.spec_table().mapping()[v] == pre_table.mapping()[v]);
                let g = pre_table.mapping()[v].ppn;
                assert(pre_alloc.live(g));
                assert(allocator.live(g));
                if a_new.frame_written_prefix(
                    manager.spec_table(),
                    a_new.page_count(),
                    g,
                ) {
                    let w = choose|w: int|
                        0 <= w < a_new.page_count() && manager.spec_table().mapping()[vpn(
                            #[trigger] a_new.page_addr(w),
                        )].ppn == g;
                    assert(!pre_alloc.live(g));
                }
                assert(ram.page_of(g) == pre_ram.page_of(g));
            }
        }
        index += 1;
    }
    Some(manager)
}

/// Segment page totals are monotone and at least the last step.
pub(crate) proof fn lemma_total_ge(segs: Seq<SegView>, n: int)
    requires
        forall|j: int| 0 <= j < segs.len() ==> spec_segment_ok(#[trigger] segs[j]),
        n <= segs.len(),
    ensures
        total_seg_pages(segs, n) >= (if n >= 0 {
            n
        } else {
            0int
        }),
    decreases (if n >= 0 {
        n
    } else {
        0int
    }),
{
    if n > 0 {
        lemma_total_ge(segs, n - 1);
        assert(seg_pages(segs[n - 1]) >= 1) by (nonlinear_arith)
            requires
                PAGE_SIZE == 4096,
                spec_segment_ok(segs[n - 1]),
                seg_pages(segs[n - 1]) == page_index(
                    segs[n - 1].vaddr + segs[n - 1].mem_size - 1,
                ) + 1 - page_index(segs[n - 1].vaddr as int),
                page_index(segs[n - 1].vaddr + segs[n - 1].mem_size - 1) == (segs[n - 1].vaddr
                    + segs[n - 1].mem_size - 1) / 4096,
                page_index(segs[n - 1].vaddr as int) == segs[n - 1].vaddr as int / 4096,
        ;
    }
}

/// Segment page totals never go negative.
pub(crate) proof fn lemma_total_nonneg(segs: Seq<SegView>, n: int)
    requires
        forall|j: int| 0 <= j < segs.len() ==> spec_segment_ok(#[trigger] segs[j]),
        n <= segs.len(),
    ensures
        forall|k: int| 0 <= k <= n ==> #[trigger] total_seg_pages(segs, k) >= 0,
        forall|k: int|
            0 <= k <= n ==> #[trigger] total_seg_pages(segs, k) <= total_seg_pages(segs, n),
    decreases (if n >= 0 {
        n
    } else {
        0int
    }),
{
    if n > 0 {
        lemma_total_nonneg(segs, n - 1);
        lemma_total_ge(segs, n);
        assert(seg_pages(segs[n - 1]) >= 1) by (nonlinear_arith)
            requires
                PAGE_SIZE == 4096,
                spec_segment_ok(segs[n - 1]),
                seg_pages(segs[n - 1]) == page_index(
                    segs[n - 1].vaddr + segs[n - 1].mem_size - 1,
                ) + 1 - page_index(segs[n - 1].vaddr as int),
                page_index(segs[n - 1].vaddr + segs[n - 1].mem_size - 1) == (segs[n - 1].vaddr
                    + segs[n - 1].mem_size - 1) / 4096,
                page_index(segs[n - 1].vaddr as int) == segs[n - 1].vaddr as int / 4096,
        ;
    }
}

/// One step of the total.
proof fn lemma_total_step(segs: Seq<SegView>, n: int)
    requires
        0 <= n < segs.len(),
    ensures
        total_seg_pages(segs, n + 1) == total_seg_pages(segs, n) + seg_pages(segs[n]),
{
}

/// The user stack's page range does not meet the segment's.
pub open spec fn stack_clear_of(s: SegView) -> bool {
    s.mem_size > 0 && s.vaddr + s.mem_size <= u64::MAX ==> (page_index(s.vaddr + s.mem_size - 1)
        + 1 <= page_index(USER_STACK_OFFSET as int) || page_index(
        (USER_STACK_OFFSET + USER_STACK_SIZE) as int - 1,
    ) + 1 <= page_index(s.vaddr as int))
}

/// When a user-program load succeeds: the image is a well-formed
/// little-endian 64-bit executable, its program-header table and loadable
/// segments are reachable, the segments are acceptable, pairwise disjoint
/// and clear of the user stack, and the frames for the address space and
/// the stack are there.
pub open spec fn spec_user_image_ok(
    data: Seq<u8>,
    l: KernelLayout,
    a: LinearFrameAllocator,
) -> bool {
    &&& spec_header_ok(data)
    &&& elf_kind_of(data) == ElfKind::Executable
    &&& spec_table_ok(data)
    &&& spec_loads_ok(data)
    &&& (forall|j: int|
        0 <= j < spec_segments(data).len() ==> stack_clear_of(#[trigger] spec_segments(data)[j]))
    &&& spec_segments_ok(spec_segments(data))
    &&& spec_segments_disjoint(spec_segments(data))
    &&& spec_build_budget(spec_segments(data), l) + 3 * 2048 <= a.free_count()
}

/// The user stack area.
pub open spec fn stack_area() -> Area {
    Area::stub(
        USER_STACK_OFFSET,
        (USER_STACK_OFFSET + USER_STACK_SIZE) as u64,
        Handler::ByFrame(ByFrame),
        MemoryAttr::stub(true, false, false),
    )
}

/// The user stack, being clear of every segment and inside the user zone,
/// is vpn-disjoint from everything the built manager holds.
pub(crate) proof fn lemma_stack_area_disjoint(
    manager: Manager,
    l: KernelLayout,
    segments: Seq<Segment>,
)
    requires
        manager.wf(),
        layout_wf(l),
        layout_high(l),
        manager.spec_areas().len() == 5 + segments.len(),
        manager.spec_areas()[0] == crate::memory::manager::boot_area1(l),
        manager.spec_areas()[1] == crate::memory::manager::boot_area2(l),
        manager.spec_areas()[2] == crate::memory::manager::boot_area3(l),
        manager.spec_areas()[3] == crate::memory::manager::boot_area4(l),
        manager.spec_areas()[4] == crate::memory::manager::boot_area5(l),
        forall|j: int|
            5 <= j < manager.spec_areas().len() ==> user_zone(#[trigger] manager.spec_areas()[j]),
        forall|j: int|
            0 <= j < segments.len() ==> {
                let a = #[trigger] manager.spec_areas()[5 + j];
                &&& a.spec_start() == segments[j].vaddr
                &&& a.spec_end() == segments[j].vaddr + segments[j].mem_size
            },
        spec_segments_ok(seg_views(segments)),
        forall|j: int|
            0 <= j < segments.len() ==> stack_clear_of(#[trigger] seg_views(segments)[j]),
    ensures
        forall|j: int|
            0 <= j < manager.spec_areas().len() ==> vpn_disjoint(
                stack_area(),
                #[trigger] manager.spec_areas()[j],
            ),
        user_zone(stack_area()),
        stack_area().spec_wf(),
{
    broadcast use crate::memory::manager::area::lemma_area_stub;
    broadcast use crate::memory::manager::handler::lemma_linear_stub;
    broadcast use crate::memory::memory_set::attr::lemma_attr_stub;

    let new_area = stack_area();
    assert(user_zone(new_area));
    assert(new_area.spec_wf()) by {
        assert(page_index(new_area.spec_end() - 1) + 1 <= page_index(u64::MAX as int) + 1
            && new_area.page_count() <= 0x800_0000) by (nonlinear_arith)
            requires
                PAGE_SIZE == 4096,
                0 < new_area.spec_end() <= 0x8000_0000,
                new_area.spec_start() < new_area.spec_end(),
                0 <= new_area.spec_start(),
                new_area.page_count() == page_index(new_area.spec_end() - 1) + 1 - page_index(
                    new_area.spec_start() as int,
                ),
                page_index(new_area.spec_end() - 1) == (new_area.spec_end() - 1) / 4096,
                page_index(new_area.spec_start() as int) == new_area.spec_start() as int / 4096,
                page_index(u64::MAX as int) == u64::MAX as int / 4096,
        ;
    }
    assert forall|j: int|
        0 <= j < manager.spec_areas().len() implies vpn_disjoint(
        new_area,
        #[trigger] manager.spec_areas()[j],
    ) by {
        let b = manager.spec_areas()[j];
        assert forall|v: u64| !(new_area.covers_vpn(v) && #[trigger] b.covers_vpn(v)) by {
            if new_area.covers_vpn(v) && b.covers_vpn(v) {
                lemma_user_zone_vpn(new_area, v);
                if j < 5 {
                    let i = choose|i: int|
                        0 <= i < b.page_count() && vpn(#[trigger] b.page_addr(i)) == v;
                    let idx = page_index(b.spec_start() as int) + i;
                    assert(page_index(l.stext as int) <= idx <= page_index(
                        crate::consts::PHYSICAL_MEMORY_END
                            + crate::consts::PHYSICAL_MEMORY_OFFSET - 1,
                    ));
                    assert((idx % 0x800_0000int) >= 0x80000);
                    assert(idx * 4096 <= page_index(u64::MAX as int) * 4096 <= u64::MAX)
                        by (nonlinear_arith)
                        requires 0 <= idx <= page_index(u64::MAX as int) && page_index(
                            u64::MAX as int,
                        ) == u64::MAX as int / 4096;
                    lemma_page_vpn(idx as u64);
                    let iu = idx as u64;
                    assert(iu & 0x7ff_ffff == iu % 0x800_0000u64) by (bit_vector);
                    assert(iu % 0x800_0000u64 == idx % 0x800_0000int) by (nonlinear_arith)
                        requires 0 <= idx <= u64::MAX && iu == idx;
                    assert(v >= 0x80000);
                } else {
                    let jj = j - 5;
                    lemma_user_zone_vpn(b, v);
                    assert(b == manager.spec_areas()[5 + jj]);
                    let sv = seg_views(segments)[jj];
                    assert(sv == segments[jj].view());
                    assert(spec_segment_ok(sv));
                    assert(b.spec_start() == sv.vaddr && b.spec_end() == sv.vaddr + sv.mem_size);
                    assert(stack_clear_of(sv));
                    assert(sv.mem_size > 0 && sv.vaddr + sv.mem_size <= u64::MAX);
                    assert(new_area.spec_start() == USER_STACK_OFFSET && new_area.spec_end()
                        == USER_STACK_OFFSET + USER_STACK_SIZE);
                    assert(false);
                }
            }
        }
    }
}

/// The stub area of segment `k`.
pub open spec fn seg_area(segments: Seq<Segment>, k: int) -> Area {
    Area::stub(
        segments[k].vaddr,
        (segments[k].vaddr + segments[k].mem_size) as u64,
        Handler::ByFrame(ByFrame),
        spec_segment_attr(segments[k].executable),
    )
}

/// Segment `k`, being acceptable and page-disjoint from the earlier
/// segments, is vpn-disjoint from everything the manager holds: from the
/// boot areas because the layout is high, and from the earlier segments'
/// areas because their page ranges are disjoint.
pub(crate) proof fn lemma_new_segment_disjoint(
    manager: Manager,
    l: KernelLayout,
    segments: Seq<Segment>,
    k: int,
    boot_len: int,
)
    requires
        manager.wf(),
        layout_wf(l),
        layout_high(l),
        boot_len == 5,
        0 <= k < segments.len(),
        manager.spec_areas().len() == boot_len + k,
        manager.spec_areas()[0] == crate::memory::manager::boot_area1(l),
        manager.spec_areas()[1] == crate::memory::manager::boot_area2(l),
        manager.spec_areas()[2] == crate::memory::manager::boot_area3(l),
        manager.spec_areas()[3] == crate::memory::manager::boot_area4(l),
        manager.spec_areas()[4] == crate::memory::manager::boot_area5(l),
        forall|j: int|
            boot_len <= j < manager.spec_areas().len() ==> user_zone(
                #[trigger] manager.spec_areas()[j],
            ),
        forall|j: int|
            0 <= j < k ==> {
                let a = #[trigger] manager.spec_areas()[boot_len + j];
                &&& a.spec_start() == segments[j].vaddr
                &&& a.spec_end() == segments[j].vaddr + segments[j].mem_size
            },
        spec_segments_ok(seg_views(segments)),
        spec_segments_disjoint(seg_views(segments)),
    ensures
        forall|j: int|
            0 <= j < manager.spec_areas().len() ==> vpn_disjoint(
                seg_area(segments, k),
                #[trigger] manager.spec_areas()[j],
            ),
        user_zone(seg_area(segments, k)),
        seg_area(segments, k).spec_wf(),
{
    broadcast use crate::memory::manager::area::lemma_area_stub;
    broadcast use crate::memory::manager::handler::lemma_linear_stub;
    broadcast use crate::memory::memory_set::attr::lemma_attr_stub;

    let new_area = seg_area(segments, k);
    let sk = seg_views(segments)[k];
    assert(spec_segment_ok(sk));
    assert(new_area.spec_start() == sk.vaddr && new_area.spec_end() == sk.vaddr + sk.mem_size);
    assert(user_zone(new_area));
    assert(new_area.spec_wf()) by {
        assert(page_index(new_area.spec_end() - 1) + 1 <= page_index(u64::MAX as int) + 1
            && new_area.page_count() <= 0x800_0000) by (nonlinear_arith)
            requires
                PAGE_SIZE == 4096,
                0 < new_area.spec_end() <= 0x8000_0000,
                new_area.spec_start() < new_area.spec_end(),
                0 <= new_area.spec_start(),
                new_area.page_count() == page_index(new_area.spec_end() - 1) + 1 - page_index(
                    new_area.spec_start() as int,
                ),
                page_index(new_area.spec_end() - 1) == (new_area.spec_end() - 1) / 4096,
                page_index(new_area.spec_start() as int) == new_area.spec_start() as int / 4096,
                page_index(u64::MAX as int) == u64::MAX as int / 4096,
        ;
    }
    assert forall|j: int|
        0 <= j < manager.spec_areas().len() implies vpn_disjoint(
        new_area,
        #[trigger] manager.spec_areas()[j],
    ) by {
        let b = manager.spec_areas()[j];
        assert forall|v: u64| !(new_area.covers_vpn(v) && #[trigger] b.covers_vpn(v)) by {
            if new_area.covers_vpn(v) && b.covers_vpn(v) {
                lemma_user_zone_vpn(new_area, v);
                if j < boot_len {
                    let i = choose|i: int|
                        0 <= i < b.page_count() && vpn(#[trigger] b.page_addr(i)) == v;
                    let idx = page_index(b.spec_start() as int) + i;
                    assert(page_index(l.stext as int) <= idx <= page_index(
                        crate::consts::PHYSICAL_MEMORY_END
                            + crate::consts::PHYSICAL_MEMORY_OFFSET - 1,
                    ));
                    assert((idx % 0x800_0000int) >= 0x80000);
                    assert(idx * 4096 <= page_index(u64::MAX as int) * 4096 <= u64::MAX)
                        by (nonlinear_arith)
                        requires 0 <= idx <= page_index(u64::MAX as int) && page_index(
                            u64::MAX as int,
                        ) == u64::MAX as int / 4096;
                    lemma_page_vpn(idx as u64);
                    let iu = idx as u64;
                    assert(iu & 0x7ff_ffff == iu % 0x800_0000u64) by (bit_vector);
                    assert(iu % 0x800_0000u64 == idx % 0x800_0000int) by (nonlinear_arith)
                        requires 0 <= idx <= u64::MAX && iu == idx;
                    assert(v >= 0x80000);
                } else {
                    let jj = j - boot_len;
                    lemma_user_zone_vpn(b, v);
                    assert(b == manager.spec_areas()[boot_len + jj]);
                    let sv = seg_views(segments)[jj];
                    assert(sv == segments[jj].view());
                    assert(spec_segment_ok(sv));
                    assert(b.spec_start() == sv.vaddr && b.spec_end() == sv.vaddr + sv.mem_size);
                    assert(new_area.spec_start() == sk.vaddr && new_area.spec_end() == sk.vaddr
                        + sk.mem_size);
                    assert(seg_page_disjoint(sv, sk));
                    assert(false);
                }
            }
        }
    }
}

} // verus!
