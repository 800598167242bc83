//! Reading of what the kernel says of itself: the list of its symbols, the
//! lists of what can be traced, the list of its modules and its
//! configuration, each as the text of a file.

use vstd::prelude::*;
use vstd::slice::slice_subrange;
use vstd::utf8::{decode_utf8, valid_utf8};
use crate::inspect::kernel::{ConfigOption, InspectError, KernelInspector};
use crate::inspect::symbols::{no_symbols, without_name, SymbolTable};
use crate::text::{each_once, list_contains, lists, string_from_utf8};

verus! {

/// Position of the first `x` of `b` at or after `from`, or the length of
/// `b` if there is none.
pub open spec fn find_byte(b: Seq<u8>, x: u8, from: int) -> int
    decreases b.len() - from,
{
    if from < 0 || from >= b.len() {
        b.len() as int
    } else if b[from] == x {
        from
    } else {
        find_byte(b, x, from + 1)
    }
}

/// `find_byte` gives a position from `from` on, at or before the end.
pub proof fn lemma_find_byte(b: Seq<u8>, x: u8, from: int)
    requires
        0 <= from <= b.len(),
    ensures
        from <= find_byte(b, x, from) <= b.len(),
        find_byte(b, x, from) < b.len() ==> b[find_byte(b, x, from)] == x,
    decreases b.len() - from,
{
    if from < b.len() && b[from] != x {
        lemma_find_byte(b, x, from + 1);
    }
}

/// Position of the first `x` of `data` at or after `from`, or the length of
/// `data` if there is none.
pub fn position_of(data: &[u8], x: u8, from: usize) -> (r: usize)
    requires
        from <= data.len(),
    ensures
        r == find_byte(data@, x, from as int),
        from <= r <= data.len(),
{
    let mut i: usize = from;
    while i < data.len()
        invariant
            from <= i <= data.len(),
            find_byte(data@, x, from as int) == find_byte(data@, x, i as int),
        decreases data.len() - i,
    {
        if data[i] == x {
            return i;
        }
        i += 1;
    }
    i
}

/// The line of `b` that starts at `from`: what stands before the next new
/// line, without the carriage return at its end if there is one.
pub open spec fn line_at(b: Seq<u8>, from: int) -> Seq<u8> {
    let line = b.subrange(from, find_byte(b, 10, from));
    if line.len() > 0 && line.last() == 13 {
        line.drop_last()
    } else {
        line
    }
}

/// The lines of `b` from `from` on.
pub open spec fn lines_from(b: Seq<u8>, from: int) -> Seq<Seq<u8>>
    decreases b.len() - from,
{
    let next = find_byte(b, 10, from) + 1;
    if 0 <= from < b.len() {
        seq![line_at(b, from)] + if from < next < b.len() {
            lines_from(b, next)
        } else {
            Seq::empty()
        }
    } else {
        Seq::empty()
    }
}

/// The lines of a text. What follows the last new line is a line unless it
/// is empty.
pub open spec fn lines_of(b: Seq<u8>) -> Seq<Seq<u8>> {
    lines_from(b, 0)
}

/// Where a line stands in a text.
#[derive(Clone, Copy, Debug, PartialEq, Eq, Structural)]
pub struct Span {
    pub start: usize,
    pub end: usize,
}

/// The bytes at `span`.
pub open spec fn span_of(b: Seq<u8>, span: Span) -> Seq<u8> {
    b.subrange(span.start as int, span.end as int)
}

/// Whether `spans` are where the lines of `b` stand.
pub open spec fn spans_lines(b: Seq<u8>, spans: Seq<Span>) -> bool {
    &&& spans.len() == lines_of(b).len()
    &&& forall|i: int|
        0 <= i < spans.len() ==> (#[trigger] spans[i]).start <= spans[i].end <= b.len() && span_of(
            b,
            spans[i],
        ) == lines_of(b)[i]
}

/// Finds where the lines of a text stand.
pub fn split_lines(data: &[u8]) -> (r: Vec<Span>)
    ensures
        spans_lines(data@, r@),
{
    let mut out: Vec<Span> = Vec::new();
    let mut start: usize = 0;
    let ghost all = lines_of(data@);
    assert(Seq::<Seq<u8>>::empty() + lines_from(data@, 0) =~= all);
    while start < data.len()
        invariant
            start <= data.len(),
            all == lines_of(data@),
            out@.len() <= all.len(),
            all =~= all.take(out@.len() as int) + lines_from(data@, start as int),
            forall|i: int|
                0 <= i < out@.len() ==> (#[trigger] out@[i]).start <= out@[i].end <= data.len()
                    && span_of(data@, out@[i]) == all[i],
        decreases data.len() - start,
    {
        let stop = position_of(data, 10, start);
        let end: usize = if stop > start && data[stop - 1] == 13 {
            stop - 1
        } else {
            stop
        };
        let ghost done = out@.len() as int;
        let ghost rest = lines_from(data@, stop + 1);
        proof {
            let line = data@.subrange(start as int, stop as int);
            if line.len() > 0 {
                assert(line.last() == data@[stop - 1]);
            }
            assert(line_at(data@, start as int) =~= data@.subrange(start as int, end as int));
            assert(lines_from(data@, start as int) == seq![line_at(data@, start as int)] + rest);
            assert(all[done] == line_at(data@, start as int));
            assert(all.take(done + 1) =~= all.take(done).push(all[done]));
            assert(all =~= all.take(done + 1) + rest);
        }
        out.push(Span { start, end });
        if stop == data.len() {
            start = stop;
            assert(rest =~= Seq::<Seq<u8>>::empty());
            assert(lines_from(data@, start as int) =~= Seq::<Seq<u8>>::empty());
        } else {
            start = stop + 1;
        }
    }
    proof {
        assert(lines_from(data@, start as int) =~= Seq::<Seq<u8>>::empty());
        assert(all.take(out@.len() as int).len() == all.len());
    }
    out
}

/// The first word of a line: what stands before the first space.
pub open spec fn first_word(line: Seq<u8>) -> Seq<u8> {
    line.take(find_byte(line, 32, 0))
}

/// Copies `data[from..to]`.
fn copy_bytes(data: &[u8], from: usize, to: usize) -> (r: Vec<u8>)
    requires
        from <= to <= data.len(),
    ensures
        r@ == data@.subrange(from as int, to as int),
{
    let mut out: Vec<u8> = Vec::new();
    let mut i: usize = from;
    while i < to
        invariant
            from <= i <= to,
            to <= data.len(),
            out@ == data@.subrange(from as int, i as int),
        decreases to - i,
    {
        out.push(data[i]);
        assert(out@ =~= data@.subrange(from as int, i + 1));
        i += 1;
    }
    out
}

/// The texts that the first `n` words of `words` hold, for those that are
/// valid UTF-8, each once, in the order they first come.
pub open spec fn texts_of(words: Seq<Seq<u8>>, n: int) -> Seq<Seq<char>>
    decreases n,
{
    if n <= 0 {
        Seq::empty()
    } else if valid_utf8(words[n - 1]) && !texts_of(words, n - 1).contains(
        decode_utf8(words[n - 1]),
    ) {
        texts_of(words, n - 1).push(decode_utf8(words[n - 1]))
    } else {
        texts_of(words, n - 1)
    }
}

/// No text is kept twice.
pub proof fn lemma_texts_once(words: Seq<Seq<u8>>, n: int)
    ensures
        each_once(texts_of(words, n)),
    decreases n,
{
    if n > 0 {
        lemma_texts_once(words, n - 1);
    }
}

/// The first words of the lines of a text.
pub open spec fn first_words(b: Seq<u8>) -> Seq<Seq<u8>> {
    lines_of(b).map_values(|l: Seq<u8>| first_word(l))
}

/// The views of a list of strings.
pub open spec fn views_of(list: Seq<String>) -> Seq<Seq<char>> {
    list.map_values(|s: String| s@)
}

/// Convert the bytes of a file holding one name per line into the list of
/// these names, each once, in the order they first come in the file. A name
/// is the first word of its line: functions might be written as
/// "name [module]".
pub fn file_to_list(data: &[u8]) -> (r: Vec<String>)
    ensures
        views_of(r@) == texts_of(first_words(data@), first_words(data@).len() as int),
        each_once(views_of(r@)),
{
    let spans = split_lines(data);
    let ghost words = first_words(data@);
    let mut out: Vec<String> = Vec::new();
    let mut i: usize = 0;
    assert(views_of(out@) =~= texts_of(words, 0));
    while i < spans.len()
        invariant
            i <= spans@.len(),
            spans_lines(data@, spans@),
            words == first_words(data@),
            views_of(out@) == texts_of(words, i as int),
        decreases spans@.len() - i,
    {
        let span = spans[i];
        let line = slice_subrange(data, span.start, span.end);
        let stop = position_of(line, 32, 0);
        proof {
            assert(line@ == lines_of(data@)[i as int]);
            assert(words[i as int] == first_word(line@));
            assert(line@.subrange(0, stop as int) =~= first_word(line@));
        }
        match string_from_utf8(copy_bytes(line, 0, stop)) {
            Some(name) => {
                let ghost before = out@;
                let known = list_contains(&out, name.as_str());
                proof {
                    if lists(before, name@) {
                        let k = choose|k: int|
                            0 <= k < before.len() && (#[trigger] before[k])@ == name@;
                        assert(views_of(before)[k] == name@);
                    }
                    if views_of(before).contains(name@) {
                        let k = choose|k: int|
                            0 <= k < views_of(before).len() && views_of(before)[k] == name@;
                        assert(before[k]@ == name@);
                    }
                }
                if !known {
                    out.push(name);
                    assert(views_of(out@) =~= views_of(before).push(name@));
                }
            },
            None => {},
        }
        i += 1;
    }
    proof {
        lemma_texts_once(words, words.len() as int);
    }
    out
}

/// The value of a hexadecimal digit, in either case.
pub open spec fn hex_value(c: u8) -> Option<int> {
    if 48 <= c <= 57 {
        Some(c - 48)
    } else if 97 <= c <= 102 {
        Some(c - 87)
    } else if 65 <= c <= 70 {
        Some(c - 55)
    } else {
        None
    }
}

/// The number that hexadecimal digits write, if they all are digits.
pub open spec fn hex_number(digits: Seq<u8>) -> Option<int>
    decreases digits.len(),
{
    if digits.len() == 0 {
        Some(0)
    } else {
        match (hex_number(digits.drop_last()), hex_value(digits.last())) {
            (Some(n), Some(d)) => Some(16 * n + d),
            _ => None,
        }
    }
}

/// The address that a word writes in hexadecimal: the word has a digit at
/// least, only digits, and writes a number that fits in 64 bits.
pub open spec fn address_of(word: Seq<u8>) -> Option<u64> {
    match hex_number(word) {
        Some(n) => if word.len() > 0 && n <= u64::MAX {
            Some(n as u64)
        } else {
            None
        },
        None => None,
    }
}

proof fn lemma_hex_number_grows(digits: Seq<u8>, n: int)
    requires
        0 <= n <= digits.len(),
        hex_number(digits) is Some,
    ensures
        hex_number(digits.take(n)) is Some,
        0 <= hex_number(digits.take(n))->Some_0 <= hex_number(digits)->Some_0,
    decreases digits.len() - n,
{
    if n == digits.len() {
        assert(digits.take(n) =~= digits);
        lemma_hex_nonneg(digits);
    } else {
        lemma_hex_number_grows(digits, n + 1);
        assert(digits.take(n + 1).drop_last() =~= digits.take(n));
        lemma_hex_nonneg(digits.take(n));
    }
}

proof fn lemma_hex_nonneg(digits: Seq<u8>)
    ensures
        hex_number(digits) matches Some(n) ==> n >= 0,
    decreases digits.len(),
{
    if digits.len() > 0 {
        lemma_hex_nonneg(digits.drop_last());
    }
}

proof fn lemma_hex_prefix_none(digits: Seq<u8>, n: int)
    requires
        0 <= n <= digits.len(),
        hex_number(digits.take(n)) is None,
    ensures
        hex_number(digits) is None,
    decreases digits.len() - n,
{
    if n < digits.len() {
        assert(digits.take(n + 1).drop_last() =~= digits.take(n));
        lemma_hex_prefix_none(digits, n + 1);
    } else {
        assert(digits.take(n) =~= digits);
    }
}

/// Reads an address written in hexadecimal.
pub fn parse_address(word: &[u8]) -> (r: Option<u64>)
    ensures
        r == address_of(word@),
{
    if word.len() == 0 {
        return None;
    }
    let mut value: u64 = 0;
    let mut i: usize = 0;
    assert(word@.take(0) =~= Seq::<u8>::empty());
    while i < word.len()
        invariant
            i <= word@.len(),
            hex_number(word@.take(i as int)) == Some(value as int),
        decreases word@.len() - i,
    {
        let c: u8 = word[i];
        proof {
            assert(word@.take(i + 1).drop_last() =~= word@.take(i as int));
            assert(word@.take(i + 1).last() == c);
        }
        let digit: u64 = if c >= 48 && c <= 57 {
            (c - 48) as u64
        } else if c >= 97 && c <= 102 {
            (c - 87) as u64
        } else if c >= 65 && c <= 70 {
            (c - 55) as u64
        } else {
            proof {
                lemma_hex_prefix_none(word@, i + 1);
            }
            return None;
        };
        if value > (u64::MAX - digit) / 16 {
            proof {
                if hex_number(word@) is Some {
                    lemma_hex_number_grows(word@, i + 1);
                }
            }
            return None;
        }
        value = 16 * value + digit;
        i += 1;
    }
    assert(word@.take(word@.len() as int) =~= word@);
    Some(value)
}

/// The symbol that a line of the list of symbols gives: its address and the
/// bytes of its name.
///
/// The words of the line are what stands between its spaces: the address in
/// hexadecimal, the type of the symbol, then the name, which ends at the
/// first tabulation of its word. A line with less than three words gives
/// nothing, and neither does one whose first word is no address.
pub open spec fn symbol_of_line(line: Seq<u8>) -> Option<(u64, Seq<u8>)> {
    let first = find_byte(line, 32, 0);
    let second = find_byte(line, 32, first + 1);
    if first >= line.len() || second >= line.len() {
        None
    } else {
        let word = line.subrange(second + 1, find_byte(line, 32, second + 1));
        match address_of(line.take(first)) {
            Some(addr) => Some((addr, word.take(find_byte(word, 9, 0)))),
            None => None,
        }
    }
}

/// The table of symbols after the lines from `from` on have been read, the
/// last one first: each line puts its symbol in the table, in place of the
/// symbol that was at its address and of the symbol that had its name.
/// Nothing comes out if a line gives no symbol, or a name that is not valid
/// UTF-8.
pub open spec fn table_from(lines: Seq<Seq<u8>>, from: int) -> Option<Map<u64, Seq<char>>>
    decreases lines.len() - from,
{
    if from < 0 || from >= lines.len() {
        Some(no_symbols())
    } else {
        match (table_from(lines, from + 1), symbol_of_line(lines[from])) {
            (Some(table), Some((addr, name))) => if valid_utf8(name) {
                Some(without_name(table, decode_utf8(name)).insert(addr, decode_utf8(name)))
            } else {
                None
            },
            _ => None,
        }
    }
}

/// Reads the symbol of a line of the list of symbols.
fn parse_symbol_line(line: &[u8]) -> (r: Option<(u64, Vec<u8>)>)
    ensures
        match symbol_of_line(line@) {
            Some((addr, name)) => r matches Some((a, n)) && a == addr && n@ == name,
            None => r is None,
        },
{
    let first = position_of(line, 32, 0);
    if first >= line.len() {
        return None;
    }
    let second = position_of(line, 32, first + 1);
    if second >= line.len() {
        return None;
    }
    let third = position_of(line, 32, second + 1);
    let word = slice_subrange(line, second + 1, third);
    let stop = position_of(word, 9, 0);
    assert(word@.subrange(0, stop as int) =~= word@.take(stop as int));
    assert(line@.subrange(0, first as int) =~= line@.take(first as int));
    match parse_address(slice_subrange(line, 0, first)) {
        Some(addr) => Some((addr, copy_bytes(word, 0, stop))),
        None => None,
    }
}

/// Reads the list of the symbols of the kernel, one symbol per line.
///
/// The lines are read from the last to the first, so that of the symbols
/// that have the same address the first of the list stays.
pub fn parse_kallsyms(data: &[u8]) -> (r: Result<SymbolTable, InspectError>)
    ensures
        match table_from(lines_of(data@), 0) {
            Some(table) => r matches Ok(t) && t@ == table,
            None => r matches Err(InspectError::InvalidSymbols),
        },
{
    let spans = split_lines(data);
    let ghost lines = lines_of(data@);
    let mut table = SymbolTable::new();
    let mut i: usize = spans.len();
    while i > 0
        invariant
            i <= spans@.len(),
            spans_lines(data@, spans@),
            lines == lines_of(data@),
            table_from(lines, i as int) == Some(table@),
        decreases i,
    {
        i -= 1;
        let span = spans[i];
        let line = slice_subrange(data, span.start, span.end);
        assert(line@ == lines[i as int]);
        let (addr, name) = match parse_symbol_line(line) {
            Some(symbol) => symbol,
            None => {
                proof {
                    lemma_table_none(lines, i as int);
                }
                return Err(InspectError::InvalidSymbols);
            },
        };
        match string_from_utf8(name) {
            Some(name) => {
                table.insert(addr, name);
            },
            None => {
                proof {
                    lemma_table_none(lines, i as int);
                }
                return Err(InspectError::InvalidSymbols);
            },
        }
    }
    Ok(table)
}

/// Once the lines from some line on give no table, the lines from any line
/// before it give none either.
proof fn lemma_table_none(lines: Seq<Seq<u8>>, at: int)
    requires
        0 <= at < lines.len(),
        table_from(lines, at) is None,
    ensures
        table_from(lines, 0) is None,
    decreases at,
{
    if at > 0 {
        lemma_table_none(lines, at - 1);
    }
}

/// Whether `line` starts with `prefix`.
pub open spec fn starts(line: Seq<u8>, prefix: Seq<u8>) -> bool {
    prefix.len() <= line.len() && line.take(prefix.len() as int) == prefix
}

/// Whether `line` starts with `prefix`.
pub fn has_prefix(line: &[u8], prefix: &[u8]) -> (r: bool)
    ensures
        r == starts(line@, prefix@),
{
    if prefix.len() > line.len() {
        return false;
    }
    let mut i: usize = 0;
    while i < prefix.len()
        invariant
            i <= prefix@.len(),
            prefix@.len() <= line@.len(),
            forall|k: int| 0 <= k < i ==> line@[k] == prefix@[k],
        decreases prefix@.len() - i,
    {
        if line[i] != prefix[i] {
            assert(line@.take(prefix@.len() as int)[i as int] != prefix@[i as int]);
            return false;
        }
        i += 1;
    }
    assert(line@.take(prefix@.len() as int) =~= prefix@);
    true
}

/// The bytes of `CONFIG_`, which every option starts with.
pub open spec fn option_prefix() -> Seq<u8> {
    seq![67, 79, 78, 70, 73, 71, 95]
}

/// The bytes of `# CONFIG_`, which the line of an option that is not set
/// starts with.
pub open spec fn unset_prefix() -> Seq<u8> {
    seq![35, 32, 67, 79, 78, 70, 73, 71, 95]
}

/// How many double quotes `b` starts with.
pub open spec fn leading_quotes(b: Seq<u8>) -> int
    decreases b.len(),
{
    if b.len() > 0 && b[0] == 34 {
        1 + leading_quotes(b.skip(1))
    } else {
        0
    }
}

/// How many double quotes `b` ends with.
pub open spec fn trailing_quotes(b: Seq<u8>) -> int
    decreases b.len(),
{
    if b.len() > 0 && b.last() == 34 {
        1 + trailing_quotes(b.drop_last())
    } else {
        0
    }
}

/// `b` without the double quotes it starts with and, of what is left,
/// without the double quotes it ends with.
pub open spec fn unquoted(b: Seq<u8>) -> Seq<u8> {
    let tail = b.skip(leading_quotes(b));
    tail.take(tail.len() - trailing_quotes(tail))
}

/// The option that a line of the configuration gives, as the bytes of its
/// name and of its value.
///
/// A line that starts with `CONFIG_` gives the option named by what stands
/// before its first `=`, with the value that stands after it, without the
/// double quotes around it. A line that starts with `# CONFIG_` gives the
/// option named by what stands between the `# ` and the next space, with the
/// value `n`. These lines are errors without their `=` or their space. Any
/// other line gives nothing.
pub open spec fn option_of_line(line: Seq<u8>) -> Result<Option<(Seq<u8>, Seq<u8>)>, InspectError> {
    if starts(line, option_prefix()) {
        let eq = find_byte(line, 61, 0);
        if eq >= line.len() {
            Err(InspectError::InvalidConfig)
        } else {
            Ok(Some((line.take(eq), unquoted(line.skip(eq + 1)))))
        }
    } else if starts(line, unset_prefix()) {
        let rest = line.skip(2);
        let space = find_byte(rest, 32, 0);
        if space >= rest.len() {
            Err(InspectError::InvalidConfig)
        } else {
            Ok(Some((rest.take(space), seq![110u8])))
        }
    } else {
        Ok(None)
    }
}

/// Mathematical image of a [`ConfigOption`].
pub ghost struct OptionModel {
    pub name: Seq<char>,
    pub value: Seq<char>,
}

/// The images of a list of options.
pub open spec fn options_of(config: Seq<ConfigOption>) -> Seq<OptionModel> {
    config.map_values(|o: ConfigOption| OptionModel { name: o.name@, value: o.value@ })
}

/// The options that the first `n` lines of a configuration give, in the
/// order of the lines. A line that is an error makes the whole an error, and
/// so does an option whose name or value is not valid UTF-8.
pub open spec fn config_upto(lines: Seq<Seq<u8>>, n: int) -> Result<
    Seq<OptionModel>,
    InspectError,
>
    decreases n,
{
    if n <= 0 {
        Ok(Seq::empty())
    } else {
        match config_upto(lines, n - 1) {
            Err(e) => Err(e),
            Ok(before) => match option_of_line(lines[n - 1]) {
                Err(e) => Err(e),
                Ok(None) => Ok(before),
                Ok(Some((name, value))) => if valid_utf8(name) && valid_utf8(value) {
                    Ok(
                        before.push(
                            OptionModel { name: decode_utf8(name), value: decode_utf8(value) },
                        ),
                    )
                } else {
                    Err(InspectError::InvalidConfig)
                },
            },
        }
    }
}

/// Once the first lines of a configuration are an error, the whole is the
/// same error.
proof fn lemma_config_error(lines: Seq<Seq<u8>>, n: int, m: int)
    requires
        0 <= n <= m,
        config_upto(lines, n) is Err,
    ensures
        config_upto(lines, m) == config_upto(lines, n),
    decreases m - n,
{
    if n < m {
        lemma_config_error(lines, n, m - 1);
    }
}

/// Where `b` stands without the double quotes around it.
fn unquote(b: &[u8]) -> (r: Span)
    ensures
        r.start <= r.end <= b.len(),
        span_of(b@, r) == unquoted(b@),
{
    let mut start: usize = 0;
    assert(b@.skip(0) =~= b@);
    while start < b.len() && b[start] == 34
        invariant
            start <= b.len(),
            leading_quotes(b@) == start + leading_quotes(b@.skip(start as int)),
        decreases b.len() - start,
    {
        assert(b@.skip(start as int)[0] == b@[start as int]);
        assert(b@.skip(start as int).skip(1) =~= b@.skip(start + 1));
        start += 1;
    }
    proof {
        if start < b.len() {
            assert(b@.skip(start as int)[0] == b@[start as int]);
        }
    }
    let ghost tail = b@.skip(start as int);
    let mut end: usize = b.len();
    assert(tail.take(tail.len() as int) =~= tail);
    while end > start && b[end - 1] == 34
        invariant
            start <= end <= b.len(),
            tail == b@.skip(start as int),
            trailing_quotes(tail) == b.len() - end + trailing_quotes(tail.take(end - start)),
        decreases end,
    {
        assert(tail.take(end - start).last() == b@[end - 1]);
        assert(tail.take(end - start).drop_last() =~= tail.take(end - start - 1));
        end -= 1;
    }
    proof {
        if end > start {
            assert(tail.take(end - start).last() == b@[end - 1]);
        }
        assert(b@.subrange(start as int, end as int) =~= tail.take(end - start));
    }
    Span { start, end }
}

/// Reads the option of a line of the configuration.
fn parse_config_line(line: &[u8]) -> (r: Result<Option<(Vec<u8>, Vec<u8>)>, InspectError>)
    ensures
        match option_of_line(line@) {
            Err(e) => r matches Err(x) && x == e,
            Ok(None) => r matches Ok(None),
            Ok(Some((name, value))) => r matches Ok(Some((n, v))) && n@ == name && v@ == value,
        },
{
    let option: [u8; 7] = [67, 79, 78, 70, 73, 71, 95];
    let unset: [u8; 9] = [35, 32, 67, 79, 78, 70, 73, 71, 95];
    assert(option@ =~= option_prefix());
    assert(unset@ =~= unset_prefix());
    if has_prefix(line, option.as_slice()) {
        let eq = position_of(line, 61, 0);
        if eq >= line.len() {
            return Err(InspectError::InvalidConfig);
        }
        let rest = slice_subrange(line, eq + 1, line.len());
        assert(rest@ =~= line@.skip(eq + 1));
        let span = unquote(rest);
        assert(line@.subrange(0, eq as int) =~= line@.take(eq as int));
        Ok(Some((copy_bytes(line, 0, eq), copy_bytes(rest, span.start, span.end))))
    } else if has_prefix(line, unset.as_slice()) {
        let rest = slice_subrange(line, 2, line.len());
        assert(rest@ =~= line@.skip(2));
        let space = position_of(rest, 32, 0);
        if space >= rest.len() {
            return Err(InspectError::InvalidConfig);
        }
        assert(rest@.subrange(0, space as int) =~= rest@.take(space as int));
        let mut value: Vec<u8> = Vec::new();
        value.push(110);
        assert(value@ =~= seq![110u8]);
        Ok(Some((copy_bytes(rest, 0, space), value)))
    } else {
        Ok(None)
    }
}

/// Parse the kernel configuration: the options it sets, with their values,
/// and those it says are not set, with the value `n`, in the order of the
/// lines.
pub fn parse_kernel_config(data: &[u8]) -> (r: Result<Vec<ConfigOption>, InspectError>)
    ensures
        match config_upto(lines_of(data@), lines_of(data@).len() as int) {
            Ok(options) => r matches Ok(v) && options_of(v@) == options,
            Err(e) => r matches Err(x) && x == e,
        },
{
    let spans = split_lines(data);
    let ghost lines = lines_of(data@);
    let mut out: Vec<ConfigOption> = Vec::new();
    let mut i: usize = 0;
    assert(options_of(out@) =~= Seq::<OptionModel>::empty());
    while i < spans.len()
        invariant
            i <= spans@.len(),
            spans_lines(data@, spans@),
            lines == lines_of(data@),
            config_upto(lines, i as int) == Ok::<Seq<OptionModel>, InspectError>(options_of(out@)),
        decreases spans@.len() - i,
    {
        let span = spans[i];
        let line = slice_subrange(data, span.start, span.end);
        assert(line@ == lines[i as int]);
        match parse_config_line(line) {
            Err(e) => {
                proof {
                    lemma_config_error(lines, i + 1, lines.len() as int);
                }
                return Err(e);
            },
            Ok(None) => {},
            Ok(Some((name, value))) => {
                match (string_from_utf8(name), string_from_utf8(value)) {
                    (Some(name), Some(value)) => {
                        let ghost before = out@;
                        let option = ConfigOption { name, value };
                        out.push(option);
                        assert(options_of(out@) =~= options_of(before).push(
                            OptionModel { name: option.name@, value: option.value@ },
                        ));
                    },
                    _ => {
                        proof {
                            lemma_config_error(lines, i + 1, lines.len() as int);
                        }
                        return Err(InspectError::InvalidConfig);
                    },
                }
            },
        }
        i += 1;
    }
    Ok(out)
}

/// What a gzip archive holds, if the bytes are those of one.
pub uninterp spec fn gunzipped(archive: Seq<u8>) -> Option<Seq<u8>>;

/// `GzDecoder::new` of the flate2 crate, read to its end: what the archive
/// holds, or nothing if the bytes are not those of a gzip archive.
#[verifier::external_body]
fn gunzip(archive: &[u8]) -> (r: Option<Vec<u8>>)
    ensures
        r is Some <==> gunzipped(archive@) is Some,
        r matches Some(v) ==> Some(v@) == gunzipped(archive@),
{
    let mut out = Vec::new();
    std::io::Read::read_to_end(&mut flate2::read::GzDecoder::new(archive), &mut out)
        .ok()
        .map(|_| out)
}

/// Parse the kernel configuration held in a gzip archive, as the running
/// kernel exposes it.
pub fn parse_kernel_config_gz(archive: &[u8]) -> (r: Result<Vec<ConfigOption>, InspectError>)
    ensures
        match gunzipped(archive@) {
            None => r matches Err(InspectError::InvalidArchive),
            Some(data) => match config_upto(lines_of(data), lines_of(data).len() as int) {
                Ok(options) => r matches Ok(v) && options_of(v@) == options,
                Err(e) => r matches Err(x) && x == e,
            },
        },
{
    match gunzip(archive) {
        Some(data) => parse_kernel_config(data.as_slice()),
        None => Err(InspectError::InvalidArchive),
    }
}

/// What the files of the kernel hold, for those that could be read.
pub struct KernelSources {
    /// The list of the symbols.
    pub symbols: Vec<u8>,
    /// The list of the events that can be traced.
    pub events: Option<Vec<u8>>,
    /// The list of the functions that can be traced.
    pub funcs: Option<Vec<u8>>,
    /// The list of the loaded modules.
    pub modules: Option<Vec<u8>>,
    /// The configuration.
    pub config: Option<Vec<u8>>,
    /// The version of the kernel.
    pub version: String,
}

/// The names that a file of names gives, if the file could be read.
fn optional_list(data: &Option<Vec<u8>>) -> (r: Option<Vec<String>>)
    ensures
        names_listed(r, *data),
{
    match data {
        Some(d) => Some(file_to_list(d.as_slice())),
        None => None,
    }
}

impl KernelInspector {
    /// Builds the inspector from what the files of the kernel hold.
    ///
    /// The list of symbols has to be there and to be sound, and so has the
    /// configuration if it is there. The other lists are optional: without
    /// them what can be traced, or which modules are loaded, is not known.
    pub fn new(sources: &KernelSources) -> (r: Result<KernelInspector, InspectError>)
        ensures
            match table_from(lines_of(sources.symbols@), 0) {
                None => r matches Err(InspectError::InvalidSymbols),
                Some(table) => match sources.config {
                    Some(c) => match config_upto(lines_of(c@), lines_of(c@).len() as int) {
                        Err(e) => r matches Err(x) && x == e,
                        Ok(options) => r matches Ok(k) && k.symbols@ == table && (
                        k.config matches Some(v) && options_of(v@) == options) && listed(
                            k,
                            *sources,
                        ),
                    },
                    None => r matches Ok(k) && k.symbols@ == table && k.config is None && listed(
                        k,
                        *sources,
                    ),
                },
            },
    {
        let symbols = match parse_kallsyms(sources.symbols.as_slice()) {
            Ok(symbols) => symbols,
            Err(e) => {
                return Err(e);
            },
        };
        let config = match &sources.config {
            Some(c) => match parse_kernel_config(c.as_slice()) {
                Ok(options) => Some(options),
                Err(e) => {
                    return Err(e);
                },
            },
            None => None,
        };
        Ok(
            KernelInspector {
                symbols,
                traceable_events: optional_list(&sources.events),
                traceable_funcs: optional_list(&sources.funcs),
                version: sources.version.clone(),
                config,
                modules: optional_list(&sources.modules),
            },
        )
    }
}

/// Whether the lists of `k` and its version are those of `sources`.
pub open spec fn listed(k: KernelInspector, sources: KernelSources) -> bool {
    &&& k.version@ == sources.version@
    &&& names_listed(k.traceable_events, sources.events)
    &&& names_listed(k.traceable_funcs, sources.funcs)
    &&& names_listed(k.modules, sources.modules)
}

/// Whether `list` holds the names that the file `data` gives, each once,
/// where there is such a file.
pub open spec fn names_listed(list: Option<Vec<String>>, data: Option<Vec<u8>>) -> bool {
    match data {
        None => list is None,
        Some(d) => list matches Some(v) && views_of(v@) == texts_of(
            first_words(d@),
            first_words(d@).len() as int,
        ) && each_once(views_of(v@)),
    }
}

} // verus!
