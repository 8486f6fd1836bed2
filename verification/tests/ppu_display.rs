//! The framebuffer: raw pixel access, clearing, and XOR sprite drawing.

use hachip::ppu::Ppu;

#[test]
fn set_pixel() {
    let mut ppu = Ppu::new();

    ppu.set_pixel(1, 1, 1);

    assert_eq!(true, ppu.get_pixel(1, 1));
}

#[test]
fn cls() {
    let mut ppu = Ppu::new();

    ppu.set_pixel(1, 1, 1);
    ppu.cls();

    assert_eq!(false, ppu.get_pixel(1, 1));
}

#[test]
fn draw() {
    let mut ppu = Ppu::new();

    let sprite: [u8; 2] = [0b00110011, 0b11001010];

    ppu.draw(0, 0, &sprite);

    assert_eq!(false, ppu.get_pixel(0, 0));
    assert_eq!(false, ppu.get_pixel(1, 0));
    assert_eq!(true, ppu.get_pixel(2, 0));
    assert_eq!(true, ppu.get_pixel(3, 0));
    assert_eq!(false, ppu.get_pixel(4, 0));
    assert_eq!(false, ppu.get_pixel(5, 0));
    assert_eq!(true, ppu.get_pixel(6, 0));
    assert_eq!(true, ppu.get_pixel(7, 0));

    assert_eq!(true, ppu.get_pixel(0, 1));
    assert_eq!(true, ppu.get_pixel(1, 1));
    assert_eq!(false, ppu.get_pixel(2, 1));
    assert_eq!(false, ppu.get_pixel(3, 1));
    assert_eq!(true, ppu.get_pixel(4, 1));
    assert_eq!(false, ppu.get_pixel(5, 1));
    assert_eq!(true, ppu.get_pixel(6, 1));
    assert_eq!(false, ppu.get_pixel(7, 1));
}

#[test]
fn draw_detects_collisions() {
    let mut ppu = Ppu::new();

    let mut sprite: [u8; 1] = [0b00110000];
    let mut collision = ppu.draw(0, 0, &sprite);
    assert_eq!(false, collision);

    sprite = [0b00000011];
    collision = ppu.draw(0, 0, &sprite);
    assert_eq!(false, collision);

    sprite = [0b00000001];
    collision = ppu.draw(0, 0, &sprite);
    assert_eq!(true, collision);
}
