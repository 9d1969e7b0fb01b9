use arena_allocator::render_hex;

#[test]
fn render_hex_formats_each_byte() {
    assert_eq!(render_hex(&[]), "");
    assert_eq!(render_hex(&[0x0a, 0xff, 0x00]), "0a ff 00 ");
    let bytes: Vec<u8> = (0u8..17).collect();
    assert_eq!(
        render_hex(&bytes),
        "00 01 02 03 04 05 06 07 08 09 0a 0b 0c 0d 0e 0f \n10 "
    );
}
