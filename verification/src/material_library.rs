//! The stock of materials.

use vstd::prelude::*;
use crate::color::Color;
use crate::diffuse_material::DiffuseMaterial;
use crate::library::Library;
use crate::material::Material;
use crate::energy::Energy;
use crate::scalar::SCALE;

verus! {

/// The names of the stock materials, in the order of their places.
pub open spec fn stock_names() -> Seq<Seq<char>> {
    seq![
        "default"@,
        "White"@,
        "Black"@,
        "Red"@,
        "Yellow"@,
        "Green"@,
        "Cyan"@,
        "Blue"@,
        "Magenta"@,
    ]
}

/// Which of the channels red, green and blue each stock material passes on
/// in full, in the order of `stock_names`; it passes on nothing of the others.
pub open spec fn stock_channels() -> Seq<(bool, bool, bool)> {
    seq![
        (true, true, true),
        (true, true, true),
        (false, false, false),
        (true, false, false),
        (true, true, false),
        (false, true, false),
        (false, true, true),
        (false, false, true),
        (true, false, true),
    ]
}

/// The colour that passes on in full the channels named and nothing of the others.
pub open spec fn stock_color_of(channels: (bool, bool, bool)) -> Color {
    Color {
        red: Energy::of(if channels.0 { SCALE as int } else { 0 }),
        green: Energy::of(if channels.1 { SCALE as int } else { 0 }),
        blue: Energy::of(if channels.2 { SCALE as int } else { 0 }),
    }
}

/// The first `count` materials of `materials` are the first stock materials.
pub open spec fn is_stock(materials: Seq<DiffuseMaterial>, count: int) -> bool {
    &&& materials.len() >= count
    &&& forall|i: int|
        0 <= i < count ==> (#[trigger] materials[i]).name@ == stock_names()[i] && materials[i].m_color
            == stock_color_of(stock_channels()[i])
}

/// No two stock materials share a name.
pub proof fn lemma_stock_names_differ()
    ensures
        forall|i: int, j: int| 0 <= i < j < 9 ==> stock_names()[i] != stock_names()[j],
{
    reveal_strlit("default");
    reveal_strlit("White");
    reveal_strlit("Black");
    reveal_strlit("Red");
    reveal_strlit("Yellow");
    reveal_strlit("Green");
    reveal_strlit("Cyan");
    reveal_strlit("Blue");
    reveal_strlit("Magenta");
    let n = stock_names();
    assert(n[0].len() == 7 && n[0][0] == 'd');
    assert(n[1].len() == 5 && n[1][0] == 'W');
    assert(n[2].len() == 5 && n[2][0] == 'B');
    assert(n[3].len() == 3);
    assert(n[4].len() == 6);
    assert(n[5].len() == 5 && n[5][0] == 'G');
    assert(n[6].len() == 4 && n[6][0] == 'C');
    assert(n[7].len() == 4 && n[7][0] == 'B');
    assert(n[8].len() == 7 && n[8][0] == 'M');
}

/// Adds the stock material that stands at the place `l.len()`.
fn stock(l: &mut Library<DiffuseMaterial>, name: &str, red: bool, green: bool, blue: bool)
    requires
        old(l).wf(),
        old(l).contents().len() < 9,
        old(l).names() == stock_names().take(old(l).contents().len() as int),
        is_stock(old(l).contents(), old(l).contents().len() as int),
        name@ == stock_names()[old(l).contents().len() as int],
        (red, green, blue) == stock_channels()[old(l).contents().len() as int],
    ensures
        final(l).wf(),
        final(l).contents().len() == old(l).contents().len() + 1,
        final(l).names() == stock_names().take(final(l).contents().len() as int),
        is_stock(final(l).contents(), final(l).contents().len() as int),
{
    let color: Color = Color::new(
        if red { Energy::one() } else { Energy::zero() },
        if green { Energy::one() } else { Energy::zero() },
        if blue { Energy::one() } else { Energy::zero() },
    );
    let material: DiffuseMaterial = DiffuseMaterial::from_color(name, &color);
    let ghost k = l.contents().len() as int;
    proof {
        lemma_stock_names_differ();
        if l.has_name(name@) {
            let i = choose|i: int| 0 <= i < l.names().len() && l.names()[i] == name@;
            assert(l.names()[i] == stock_names()[i]);
        }
    }
    l.add(name, material);
    proof {
        assert(l.names() =~= stock_names().take(k + 1));
        assert forall|i: int| 0 <= i < k + 1 implies (#[trigger] l.contents()[i]).name@
            == stock_names()[i] && l.contents()[i].m_color == stock_color_of(
            stock_channels()[i],
        ) by {
            if i < k {
                assert(l.contents()[i] == old(l).contents()[i]);
            }
        }
    }
}

impl Library<DiffuseMaterial> {
    /// The library of the stock materials: a white default and eight
    /// colours, each under its name; see `stock_names` and `stock_channels`.
    pub fn build_material_library() -> (l: Library<DiffuseMaterial>)
        ensures
            l.wf(),
            l.names() == stock_names(),
            l.contents().len() == 9,
            is_stock(l.contents(), 9),
            forall|i: int| 0 <= i < l.contents().len() ==> (#[trigger] l.contents()[i]).valid(),
    {
        let mut l: Library<DiffuseMaterial> = Library::new();
        proof {
            assert(l.names() =~= stock_names().take(0));
        }
        stock(&mut l, "default", true, true, true);
        stock(&mut l, "White", true, true, true);
        stock(&mut l, "Black", false, false, false);
        stock(&mut l, "Red", true, false, false);
        stock(&mut l, "Yellow", true, true, false);
        stock(&mut l, "Green", false, true, false);
        stock(&mut l, "Cyan", false, true, true);
        stock(&mut l, "Blue", false, false, true);
        stock(&mut l, "Magenta", true, false, true);
        proof {
            assert(stock_names().take(9) =~= stock_names());
            assert forall|i: int| 0 <= i < l.contents().len() implies (
            #[trigger] l.contents()[i]).valid() by {
                assert(l.contents()[i].m_color == stock_color_of(stock_channels()[i]));
            }
        }
        l
    }
}

} // verus!
