//! Paths compared the way `std::path::Path` compares them on Unix: by their
//! components, so that repeated separators, a trailing separator and `.`
//! pieces (but a leading `.` of a relative path) make no difference.

use vstd::prelude::*;

use crate::utf8_text::chars_vec;

verus! {

/// The pieces of `s` between `/` separators, empty pieces included: a path
/// with `n` separators has `n + 1` pieces.
pub open spec fn slash_pieces(s: Seq<char>) -> Seq<Seq<char>>
    decreases s.len(),
{
    if s.len() == 0 {
        seq![Seq::<char>::empty()]
    } else {
        let head = slash_pieces(s.drop_last());
        if s.last() == '/' {
            head.push(Seq::<char>::empty())
        } else {
            head.update(head.len() - 1, head.last().push(s.last()))
        }
    }
}

/// A piece that stands as a component of its own: not empty and not `.`.
pub open spec fn named_piece(piece: Seq<char>) -> bool {
    piece.len() > 0 && piece != seq!['.']
}

/// The pieces of `s` that stand as components of their own, in order.
pub open spec fn named_pieces(s: Seq<char>) -> Seq<Seq<char>> {
    slash_pieces(s).filter(|piece: Seq<char>| named_piece(piece))
}

/// The components of a Unix path, each as its characters: a root is `/`, a
/// leading current-directory component of a relative path is `.`, and every
/// other component is a named piece (`..` among them) in order.
pub open spec fn path_components(s: Seq<char>) -> Seq<Seq<char>> {
    let named = named_pieces(s);
    if s.len() > 0 && s[0] == '/' {
        seq![seq!['/']] + named
    } else if slash_pieces(s)[0] == seq!['.'] {
        seq![seq!['.']] + named
    } else {
        named
    }
}

/// The character sequences of nested character vectors.
pub open spec fn nested_chars(v: Seq<Vec<char>>) -> Seq<Seq<char>> {
    v.map_values(|piece: Vec<char>| piece@)
}

proof fn lemma_pieces_step(s: Seq<char>, c: char)
    ensures
        slash_pieces(s).len() >= 1,
        slash_pieces(s.push(c)) == if c == '/' {
            slash_pieces(s).push(Seq::<char>::empty())
        } else {
            slash_pieces(s).update(
                slash_pieces(s).len() - 1,
                slash_pieces(s).last().push(c),
            )
        },
    decreases s.len(),
{
    if s.len() > 0 {
        lemma_pieces_step(s.drop_last(), s.last());
        assert(s.drop_last().push(s.last()) =~= s);
    }
    assert(s.push(c).drop_last() =~= s);
}

proof fn lemma_pieces_join(x: Seq<char>, y: Seq<char>)
    ensures
        slash_pieces(x + seq!['/'] + y) == slash_pieces(x) + slash_pieces(y),
    decreases y.len(),
{
    lemma_pieces_step(x, '/');
    if y.len() == 0 {
        assert(x + seq!['/'] + y =~= x.push('/'));
        assert(slash_pieces(y) =~= seq![Seq::<char>::empty()]);
        assert(slash_pieces(x).push(Seq::<char>::empty()) =~= slash_pieces(x) + seq![Seq::<char>::empty()]);
    } else {
        let c = y.last();
        let front = y.drop_last();
        lemma_pieces_join(x, front);
        lemma_pieces_step(x + seq!['/'] + front, c);
        lemma_pieces_step(front, c);
        assert(front.push(c) =~= y);
        assert((x + seq!['/'] + front).push(c) =~= x + seq!['/'] + y);
        let px = slash_pieces(x);
        let pf = slash_pieces(front);
        if c == '/' {
            assert((px + pf).push(Seq::<char>::empty()) =~= px + pf.push(Seq::<char>::empty()));
        } else {
            let joined = px + pf;
            assert(joined.last() == pf.last());
            assert(joined.update(joined.len() - 1, joined.last().push(c)) =~= px + pf.update(
                pf.len() - 1,
                pf.last().push(c),
            ));
        }
    }
}

proof fn lemma_single_piece(s: Seq<char>)
    requires
        !s.contains('/'),
    ensures
        slash_pieces(s) == seq![s],
    decreases s.len(),
{
    if s.len() > 0 {
        let front = s.drop_last();
        assert(!front.contains('/')) by {
            if front.contains('/') {
                let i = choose|i: int| 0 <= i < front.len() && front[i] == '/';
                assert(s[i] == '/');
            }
        }
        lemma_single_piece(front);
        assert(s[s.len() - 1] != '/');
        assert(front.push(s.last()) =~= s);
    } else {
        assert(s =~= Seq::<char>::empty());
    }
}

proof fn lemma_first_piece_prefix(s: Seq<char>)
    ensures
        slash_pieces(s).len() >= 1,
        slash_pieces(s)[0].len() <= s.len(),
        slash_pieces(s)[0] == s.take(slash_pieces(s)[0].len() as int),
        slash_pieces(s).len() == 1 ==> slash_pieces(s)[0] == s,
    decreases s.len(),
{
    if s.len() > 0 {
        let front = s.drop_last();
        lemma_first_piece_prefix(front);
        lemma_pieces_step(front, s.last());
        assert(front.push(s.last()) =~= s);
        let first = slash_pieces(front)[0];
        if slash_pieces(front).len() == 1 && s.last() != '/' {
            assert(first == front);
            assert(slash_pieces(s)[0] == first.push(s.last()));
            assert(first.push(s.last()) =~= s.take(s.len() as int));
        } else {
            assert(slash_pieces(s)[0] == first);
            assert(front.take(first.len() as int) =~= s.take(first.len() as int));
        }
    } else {
        assert(s.take(0) =~= Seq::<char>::empty());
        assert(slash_pieces(s)[0] =~= s);
    }
}

/// A path that does not open with a root or a `.` piece: empty, or starting
/// with a character other than `/` and `.`.
pub open spec fn plain_start(s: Seq<char>) -> bool {
    s.len() == 0 || (s[0] != '/' && s[0] != '.')
}

proof fn lemma_plain_start_has_no_marker(s: Seq<char>)
    requires
        plain_start(s),
    ensures
        path_components(s) == named_pieces(s),
{
    lemma_first_piece_prefix(s);
    let first = slash_pieces(s)[0];
    if first == seq!['.'] {
        assert(s[0] == first[0]);
    }
}

/// Component laws of Unix paths: the empty path has none; a single piece is
/// its own component unless it is `.`, which stands as the current directory;
/// a root `/` and a leading `./` add their component before the rest; joining
/// two paths with `/` joins their components; and repeated separators, a `.`
/// piece after the start and a trailing separator or `/.` change nothing.
pub proof fn law_path_components_compose(a: Seq<char>, b: Seq<char>)
    ensures
        path_components(Seq::<char>::empty()) == Seq::<Seq<char>>::empty(),
        a.len() > 0 && !a.contains('/') && a != seq!['.'] ==> path_components(a) == seq![a],
        path_components(seq!['.']) == seq![seq!['.']],
        plain_start(b) ==> path_components(seq!['/'] + b) == seq![seq!['/']] + path_components(b),
        plain_start(b) ==> path_components(seq!['.', '/'] + b) == seq![seq!['.']] + path_components(b),
        a.len() > 0 && plain_start(b) ==> path_components(a + seq!['/'] + b) == path_components(a)
            + path_components(b),
        a.len() > 0 ==> path_components(a + seq!['/', '/'] + b) == path_components(a + seq!['/'] + b),
        a.len() > 0 ==> path_components(a + seq!['/', '.', '/'] + b) == path_components(
            a + seq!['/'] + b,
        ),
        a.len() > 0 ==> path_components(a + seq!['/']) == path_components(a),
        a.len() > 0 ==> path_components(a + seq!['/', '.']) == path_components(a),
{
    let keep = |piece: Seq<char>| named_piece(piece);
    let empty = Seq::<char>::empty();
    let nothing = Seq::<Seq<char>>::empty();
    assert(nothing.filter(keep) =~= nothing) by {
        reveal(Seq::filter);
    }
    assert(seq![empty].filter(keep) =~= nothing) by {
        reveal(Seq::filter);
        assert(seq![empty].drop_last() =~= nothing);
    }
    assert(seq![seq!['.']].filter(keep) =~= nothing) by {
        reveal(Seq::filter);
        assert(seq![seq!['.']].drop_last() =~= nothing);
    }
    // The empty path and single pieces.
    lemma_single_piece(empty);
    assert(path_components(empty) =~= nothing);
    lemma_single_piece(seq!['.']);
    assert(path_components(seq!['.']) =~= seq![seq!['.']]);
    if a.len() > 0 && !a.contains('/') && a != seq!['.'] {
        lemma_single_piece(a);
        assert(seq![a].filter(keep) =~= seq![a]) by {
            reveal(Seq::filter);
            assert(seq![a].drop_last() =~= nothing);
        }
        assert(a[0] != '/') by {
            assert(!a.contains('/'));
            if a[0] == '/' {
                assert(a.contains('/'));
            }
        }
    }
    // Root and leading `./`.
    if plain_start(b) {
        lemma_plain_start_has_no_marker(b);
        lemma_pieces_join(empty, b);
        assert(empty + seq!['/'] + b =~= seq!['/'] + b);
        Seq::filter_distributes_over_add(seq![empty], slash_pieces(b), keep);
        assert(slash_pieces(empty) =~= seq![empty]);
        lemma_pieces_join(seq!['.'], b);
        assert(seq!['.'] + seq!['/'] + b =~= seq!['.', '/'] + b);
        Seq::filter_distributes_over_add(seq![seq!['.']], slash_pieces(b), keep);
        assert((seq![seq!['.']] + slash_pieces(b))[0] == seq!['.']);
    }
    if a.len() > 0 {
        lemma_first_piece_prefix(a);
        let pa = slash_pieces(a);
        // Joining.
        lemma_pieces_join(a, b);
        Seq::filter_distributes_over_add(pa, slash_pieces(b), keep);
        assert((pa + slash_pieces(b))[0] == pa[0]);
        assert((a + seq!['/'] + b)[0] == a[0]);
        if plain_start(b) {
            lemma_plain_start_has_no_marker(b);
            if a[0] == '/' {
                assert(path_components(a + seq!['/'] + b) =~= path_components(a) + path_components(b));
            } else if pa[0] == seq!['.'] {
                assert(path_components(a + seq!['/'] + b) =~= path_components(a) + path_components(b));
            } else {
                assert(path_components(a + seq!['/'] + b) =~= path_components(a) + path_components(b));
            }
        }
        // Repeated separators and `.` pieces.
        let slash_b = seq!['/'] + b;
        lemma_pieces_join(empty, b);
        assert(empty + seq!['/'] + b =~= slash_b);
        assert(slash_pieces(empty) =~= seq![empty]);
        lemma_pieces_join(a, slash_b);
        assert(a + seq!['/'] + slash_b =~= a + seq!['/', '/'] + b);
        Seq::filter_distributes_over_add(seq![empty], slash_pieces(b), keep);
        Seq::filter_distributes_over_add(pa, slash_pieces(slash_b), keep);
        assert(pa + slash_pieces(slash_b) =~= pa + (seq![empty] + slash_pieces(b)));
        assert((pa + slash_pieces(slash_b))[0] == pa[0]);
        assert((a + seq!['/', '/'] + b)[0] == a[0]);
        assert(named_pieces(a + seq!['/', '/'] + b) =~= named_pieces(a + seq!['/'] + b));
        let dot_b = seq!['.', '/'] + b;
        lemma_pieces_join(seq!['.'], b);
        assert(seq!['.'] + seq!['/'] + b =~= dot_b);
        lemma_pieces_join(a, dot_b);
        assert(a + seq!['/'] + dot_b =~= a + seq!['/', '.', '/'] + b);
        Seq::filter_distributes_over_add(seq![seq!['.']], slash_pieces(b), keep);
        Seq::filter_distributes_over_add(pa, slash_pieces(dot_b), keep);
        assert(pa + slash_pieces(dot_b) =~= pa + (seq![seq!['.']] + slash_pieces(b)));
        assert((pa + slash_pieces(dot_b))[0] == pa[0]);
        assert((a + seq!['/', '.', '/'] + b)[0] == a[0]);
        assert(named_pieces(a + seq!['/', '.', '/'] + b) =~= named_pieces(a + seq!['/'] + b));
        // Trailing separator and `/.`.
        lemma_pieces_join(a, empty);
        assert(a + seq!['/'] + empty =~= a + seq!['/']);
        Seq::filter_distributes_over_add(pa, seq![empty], keep);
        assert(pa + seq![empty] =~= slash_pieces(a + seq!['/']));
        assert((a + seq!['/'])[0] == a[0]);
        assert(named_pieces(a + seq!['/']) =~= named_pieces(a));
        lemma_single_piece(seq!['.']);
        lemma_pieces_join(a, seq!['.']);
        assert(a + seq!['/'] + seq!['.'] =~= a + seq!['/', '.']);
        Seq::filter_distributes_over_add(pa, seq![seq!['.']], keep);
        assert((a + seq!['/', '.'])[0] == a[0]);
        assert(named_pieces(a + seq!['/', '.']) =~= named_pieces(a));
    }
}

fn chars_equal(a: &Vec<char>, b: &Vec<char>) -> (equal: bool)
    ensures
        equal == (a@ == b@),
{
    if a.len() != b.len() {
        return false;
    }
    let mut index: usize = 0;
    while index < a.len()
        invariant
            a@.len() == b@.len(),
            0 <= index <= a@.len(),
            forall|i: int| 0 <= i < index ==> a@[i] == b@[i],
        decreases a@.len() - index,
    {
        if a[index] != b[index] {
            return false;
        }
        index = index + 1;
    }
    proof {
        assert(a@ =~= b@);
    }
    true
}

/// Whether two component lists are the same, component by component.
pub fn components_equal(a: &Vec<Vec<char>>, b: &Vec<Vec<char>>) -> (equal: bool)
    ensures
        equal == (nested_chars(a@) == nested_chars(b@)),
{
    if a.len() != b.len() {
        proof {
            assert(nested_chars(a@).len() != nested_chars(b@).len());
        }
        return false;
    }
    let mut index: usize = 0;
    while index < a.len()
        invariant
            a@.len() == b@.len(),
            0 <= index <= a@.len(),
            forall|i: int| 0 <= i < index ==> a@[i]@ == b@[i]@,
        decreases a@.len() - index,
    {
        if !chars_equal(&a[index], &b[index]) {
            proof {
                assert(nested_chars(a@)[index as int] != nested_chars(b@)[index as int]);
            }
            return false;
        }
        index = index + 1;
    }
    proof {
        assert(nested_chars(a@) =~= nested_chars(b@));
    }
    true
}

/// Adds `piece` to `named` when it stands as a component of its own.
fn keep_named(named: &mut Vec<Vec<char>>, piece: Vec<char>)
    ensures
        nested_chars(final(named)@) == if named_piece(piece@) {
            nested_chars(old(named)@).push(piece@)
        } else {
            nested_chars(old(named)@)
        },
{
    if piece.len() > 0 && !(piece.len() == 1 && piece[0] == '.') {
        let ghost before = named@;
        named.push(piece);
        proof {
            assert(nested_chars(named@) =~= nested_chars(before).push(piece@));
        }
    } else {
        proof {
            if piece@.len() == 1 {
                assert(piece@ =~= seq!['.']);
            }
        }
    }
}

/// The components of `path`, read by Unix rules.
pub fn path_components_of(path: &str) -> (components: Vec<Vec<char>>)
    ensures
        nested_chars(components@) == path_components(path@),
{
    let chars = chars_vec(path);
    let ghost s = path@;
    let ghost keep = |piece: Seq<char>| named_piece(piece);
    let rooted = chars.len() > 0 && chars[0] == '/';
    let mut named: Vec<Vec<char>> = Vec::new();
    let mut current: Vec<char> = Vec::new();
    let mut leading_dot = false;
    let mut seen_separator = false;
    proof {
        assert(s.take(0) =~= Seq::<char>::empty());
        assert(nested_chars(named@) =~= Seq::<Seq<char>>::empty());
        assert(Seq::<Seq<char>>::empty().filter(keep) =~= Seq::<Seq<char>>::empty()) by {
            reveal(Seq::filter);
        }
        assert(slash_pieces(s.take(0)).drop_last() =~= Seq::<Seq<char>>::empty());
        assert(current@ =~= Seq::<char>::empty());
    }
    for index in 0..chars.len()
        invariant
            chars@ == s,
            s == path@,
            keep == (|piece: Seq<char>| named_piece(piece)),
            slash_pieces(s.take(index as int)).len() >= 1,
            current@ == slash_pieces(s.take(index as int)).last(),
            nested_chars(named@) == slash_pieces(s.take(index as int)).drop_last().filter(keep),
            seen_separator == (slash_pieces(s.take(index as int)).len() > 1),
            leading_dot == (slash_pieces(s.take(index as int))[0] == seq!['.']),
    {
        let c = chars[index];
        let ghost before = s.take(index as int);
        let ghost pieces = slash_pieces(before);
        proof {
            assert(s.take(index + 1) =~= before.push(c));
            lemma_pieces_step(before, c);
            lemma_pieces_step(before.push(c), c);
        }
        if c == '/' {
            let finished = current;
            current = Vec::new();
            proof {
                assert(pieces.push(Seq::<char>::empty()).drop_last() =~= pieces);
                assert(pieces.drop_last().push(pieces.last()) =~= pieces);
                pieces.drop_last().lemma_filter_push(pieces.last(), keep);
            }
            keep_named(&mut named, finished);
            seen_separator = true;
            proof {
                assert(current@ =~= Seq::<char>::empty());
            }
        } else {
            if !seen_separator {
                leading_dot = current.len() == 0 && c == '.';
                proof {
                    assert(pieces.len() == 1);
                    let grown = current@.push(c);
                    assert(slash_pieces(s.take(index + 1))[0] == grown);
                    if current@.len() == 0 && c == '.' {
                        assert(grown =~= seq!['.']);
                    } else if current@.len() != 0 {
                        assert(grown.len() != seq!['.'].len());
                    } else {
                        assert(grown[0] != seq!['.'][0]);
                    }
                }
            }
            current.push(c);
            proof {
                assert(pieces.update(pieces.len() - 1, pieces.last().push(c)).drop_last()
                    =~= pieces.drop_last());
                if seen_separator {
                    assert(slash_pieces(s.take(index + 1))[0] == pieces[0]);
                }
            }
        }
    }
    let ghost pieces = slash_pieces(s);
    proof {
        assert(s.take(s.len() as int) =~= s);
        lemma_pieces_step(s, '/');
        assert(pieces.drop_last().push(pieces.last()) =~= pieces);
        pieces.drop_last().lemma_filter_push(pieces.last(), keep);
    }
    keep_named(&mut named, current);
    let mut components: Vec<Vec<char>> = Vec::new();
    if rooted {
        let mut root: Vec<char> = Vec::new();
        root.push('/');
        components.push(root);
    } else if leading_dot {
        let mut here: Vec<char> = Vec::new();
        here.push('.');
        components.push(here);
    }
    let ghost marker = components@;
    components.append(&mut named);
    proof {
        let named_view = pieces.filter(keep);
        assert(nested_chars(components@) =~= nested_chars(marker) + named_view);
        if rooted {
            assert(nested_chars(marker) =~= seq![seq!['/']]);
        } else if leading_dot {
            assert(nested_chars(marker) =~= seq![seq!['.']]);
        } else {
            assert(nested_chars(marker) + named_view =~= named_view);
        }
    }
    components
}

} // verus!
