use xqa_terminal::display::video_memory::Colour;

const ALL: [(Colour, [u8; 4], u32); 16] = [
    (Colour::Black, [0x00, 0x00, 0x00, 0xff], 0xff000000),
    (Colour::White, [0xff, 0xff, 0xff, 0xff], 0xffffffff),
    (Colour::Red, [0x88, 0x00, 0x00, 0xff], 0xff880000),
    (Colour::Cyan, [0xaa, 0xff, 0xee, 0xff], 0xffaaffee),
    (Colour::Violet, [0xcc, 0x44, 0xcc, 0xff], 0xffcc44cc),
    (Colour::Green, [0x00, 0xcc, 0x55, 0xff], 0xff00cc55),
    (Colour::Blue, [0x00, 0x00, 0xaa, 0xff], 0xff0000aa),
    (Colour::Yellow, [0xee, 0xee, 0x77, 0xff], 0xffeeee77),
    (Colour::Orange, [0xdd, 0x88, 0x55, 0xff], 0xffdd8855),
    (Colour::Brown, [0x66, 0x44, 0x00, 0xff], 0xff664400),
    (Colour::LightRed, [0xff, 0x77, 0x77, 0xff], 0xffff7777),
    (Colour::DarkGrey, [0x33, 0x33, 0x33, 0xff], 0xff333333),
    (Colour::Grey, [0x77, 0x77, 0x77, 0xff], 0xff777777),
    (Colour::LightGreen, [0xaa, 0xff, 0x66, 0xff], 0xffaaff66),
    (Colour::LightBlue, [0x00, 0x88, 0xff, 0xff], 0xff0088ff),
    (Colour::LightGrey, [0xbb, 0xbb, 0xbb, 0xff], 0xffbbbbbb),
];

#[test]
fn to_rgba_gives_the_quad_of_each_colour() {
    for (colour, quad, _) in ALL {
        assert_eq!(colour.to_rgba(), quad);
    }
}

#[test]
fn every_colour_is_opaque() {
    for (colour, _, _) in ALL {
        assert_eq!(colour.to_rgba()[3], 0xff);
    }
}

#[test]
fn array_from_colour_is_the_quad() {
    for (colour, quad, _) in ALL {
        let converted: [u8; 4] = colour.into();
        assert_eq!(converted, quad);
    }
}

#[test]
fn slice_from_colour_is_the_quad() {
    for (colour, quad, _) in ALL {
        let converted: &[u8] = colour.into();
        assert_eq!(converted, &quad[..]);
    }
}

#[test]
fn number_from_colour_packs_alpha_red_green_blue() {
    for (colour, quad, packed) in ALL {
        let converted: u32 = colour.into();
        assert_eq!(converted, packed);
        assert_eq!(converted, u32::from_be_bytes([quad[3], quad[0], quad[1], quad[2]]));
    }
}

#[test]
fn black_and_white_are_the_extremes() {
    assert_eq!(Colour::Black.to_rgba(), [0x00, 0x00, 0x00, 0xff]);
    assert_eq!(Colour::White.to_rgba(), [0xff, 0xff, 0xff, 0xff]);
}

#[test]
fn colours_are_told_apart() {
    for (i, (a, qa, _)) in ALL.iter().enumerate() {
        for (j, (b, qb, _)) in ALL.iter().enumerate() {
            assert_eq!(a == b, i == j);
            assert_eq!(qa == qb, i == j);
        }
    }
}
