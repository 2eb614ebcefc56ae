use vstd::prelude::*;

verus! {

/// A rectangle of pixels in a texture atlas.
#[derive(Debug, Clone, Copy, PartialEq, Eq, Structural, Hash)]
pub struct PixelRect {
    pub x: u32,
    pub y: u32,
    pub width: u32,
    pub height: u32,
}

/// The size of a texture atlas and of the sprites cut out of it, in pixels.
#[derive(Debug, Clone, Copy, PartialEq, Eq, Structural, Hash)]
pub struct Tileset {
    pub atlas_width: u32,
    pub atlas_height: u32,
    pub tile_width: u32,
    pub tile_height: u32,
}

/// The sprites of bomb explosions.
#[derive(Debug, Clone, Copy, PartialEq, Eq, Structural, Hash)]
pub enum BombExplosionTileType {
    ExplosionCenter1,
    ExplosionStraight1,
    ExplosionEnd1,
    ExplosionCenter2,
    ExplosionStraight2,
    ExplosionEnd2,
    ExplosionCenter3,
    ExplosionStraight3,
    ExplosionEnd3,
    ExplosionCenter4,
    ExplosionStraight4,
    ExplosionEnd4,
}

/// The top-left corner of each sprite of bomb explosions in its atlas, in pixels.
pub open spec fn spec_bomb_explosion_topleft(t: BombExplosionTileType) -> (u32, u32) {
    match t {
        BombExplosionTileType::ExplosionCenter1 => (19u32, 170u32),
        BombExplosionTileType::ExplosionStraight1 => (36u32, 153u32),
        BombExplosionTileType::ExplosionEnd1 => (2u32, 153u32),
        BombExplosionTileType::ExplosionCenter2 => (72u32, 170u32),
        BombExplosionTileType::ExplosionStraight2 => (89u32, 153u32),
        BombExplosionTileType::ExplosionEnd2 => (55u32, 153u32),
        BombExplosionTileType::ExplosionCenter3 => (125u32, 170u32),
        BombExplosionTileType::ExplosionStraight3 => (142u32, 153u32),
        BombExplosionTileType::ExplosionEnd3 => (108u32, 153u32),
        BombExplosionTileType::ExplosionCenter4 => (178u32, 170u32),
        BombExplosionTileType::ExplosionStraight4 => (195u32, 153u32),
        BombExplosionTileType::ExplosionEnd4 => (161u32, 153u32),
    }
}

impl BombExplosionTileType {
    /// The atlas holding the sprites of bomb explosions.
    pub fn tileset() -> (t: Tileset)
        ensures
            t == (Tileset { atlas_width: 222, atlas_height: 205, tile_width: 16, tile_height: 16 }),
    {
        Tileset { atlas_width: 222, atlas_height: 205, tile_width: 16, tile_height: 16 }
    }

    /// The top-left corner of the sprite in the atlas, in pixels.
    pub fn sprite_topleft_position(self) -> (r: (u32, u32))
        ensures
            r == spec_bomb_explosion_topleft(self),
    {
        match self {
            BombExplosionTileType::ExplosionCenter1 => (19, 170),
            BombExplosionTileType::ExplosionStraight1 => (36, 153),
            BombExplosionTileType::ExplosionEnd1 => (2, 153),
            BombExplosionTileType::ExplosionCenter2 => (72, 170),
            BombExplosionTileType::ExplosionStraight2 => (89, 153),
            BombExplosionTileType::ExplosionEnd2 => (55, 153),
            BombExplosionTileType::ExplosionCenter3 => (125, 170),
            BombExplosionTileType::ExplosionStraight3 => (142, 153),
            BombExplosionTileType::ExplosionEnd3 => (108, 153),
            BombExplosionTileType::ExplosionCenter4 => (178, 170),
            BombExplosionTileType::ExplosionStraight4 => (195, 153),
            BombExplosionTileType::ExplosionEnd4 => (161, 153),
        }
    }

    /// The pixels of the sprite in the atlas.
    pub fn sprite_rect(self) -> (r: PixelRect)
        ensures
            r == (PixelRect { x: spec_bomb_explosion_topleft(self).0, y: spec_bomb_explosion_topleft(self).1, width: 16, height: 16 }),
    {
        let (x, y) = self.sprite_topleft_position();
        PixelRect { x, y, width: 16, height: 16 }
    }
}

/// The sprites of the bomb.
#[derive(Debug, Clone, Copy, PartialEq, Eq, Structural, Hash)]
pub enum BombTileType {
    Bomb,
}

/// The top-left corner of each sprite of the bomb in its atlas, in pixels.
pub open spec fn spec_bomb_topleft(t: BombTileType) -> (u32, u32) {
    match t {
        BombTileType::Bomb => (185u32, 154u32),
    }
}

impl BombTileType {
    /// The atlas holding the sprites of the bomb.
    pub fn tileset() -> (t: Tileset)
        ensures
            t == (Tileset { atlas_width: 222, atlas_height: 324, tile_width: 16, tile_height: 16 }),
    {
        Tileset { atlas_width: 222, atlas_height: 324, tile_width: 16, tile_height: 16 }
    }

    /// The top-left corner of the sprite in the atlas, in pixels.
    pub fn sprite_topleft_position(self) -> (r: (u32, u32))
        ensures
            r == spec_bomb_topleft(self),
    {
        match self {
            BombTileType::Bomb => (185, 154),
        }
    }

    /// The pixels of the sprite in the atlas.
    pub fn sprite_rect(self) -> (r: PixelRect)
        ensures
            r == (PixelRect { x: spec_bomb_topleft(self).0, y: spec_bomb_topleft(self).1, width: 16, height: 16 }),
    {
        let (x, y) = self.sprite_topleft_position();
        PixelRect { x, y, width: 16, height: 16 }
    }
}

/// The sprites of the character.
#[derive(Debug, Clone, Copy, PartialEq, Eq, Structural, Hash)]
pub enum CharacterTileType {
    StandingDown,
    MovingDown,
    StandingUp,
    MovingUp,
    MovingRight1,
    StandingRight,
    MovingRight2,
    Death1,
    Death2,
    Death3,
    Death4,
    Empty,
}

/// The top-left corner of each sprite of the character in its atlas, in pixels.
pub open spec fn spec_character_topleft(t: CharacterTileType) -> (u32, u32) {
    match t {
        CharacterTileType::StandingDown => (1u32, 84u32),
        CharacterTileType::MovingDown => (18u32, 84u32),
        CharacterTileType::StandingUp => (35u32, 84u32),
        CharacterTileType::MovingUp => (52u32, 84u32),
        CharacterTileType::MovingRight1 => (69u32, 84u32),
        CharacterTileType::StandingRight => (86u32, 84u32),
        CharacterTileType::MovingRight2 => (103u32, 84u32),
        CharacterTileType::Death1 => (120u32, 84u32),
        CharacterTileType::Death2 => (137u32, 84u32),
        CharacterTileType::Death3 => (154u32, 84u32),
        CharacterTileType::Death4 => (171u32, 84u32),
        CharacterTileType::Empty => (188u32, 84u32),
    }
}

impl CharacterTileType {
    /// The atlas holding the sprites of the character.
    pub fn tileset() -> (t: Tileset)
        ensures
            t == (Tileset { atlas_width: 222, atlas_height: 205, tile_width: 16, tile_height: 16 }),
    {
        Tileset { atlas_width: 222, atlas_height: 205, tile_width: 16, tile_height: 16 }
    }

    /// The top-left corner of the sprite in the atlas, in pixels.
    pub fn sprite_topleft_position(self) -> (r: (u32, u32))
        ensures
            r == spec_character_topleft(self),
    {
        match self {
            CharacterTileType::StandingDown => (1, 84),
            CharacterTileType::MovingDown => (18, 84),
            CharacterTileType::StandingUp => (35, 84),
            CharacterTileType::MovingUp => (52, 84),
            CharacterTileType::MovingRight1 => (69, 84),
            CharacterTileType::StandingRight => (86, 84),
            CharacterTileType::MovingRight2 => (103, 84),
            CharacterTileType::Death1 => (120, 84),
            CharacterTileType::Death2 => (137, 84),
            CharacterTileType::Death3 => (154, 84),
            CharacterTileType::Death4 => (171, 84),
            CharacterTileType::Empty => (188, 84),
        }
    }

    /// The pixels of the sprite in the atlas.
    pub fn sprite_rect(self) -> (r: PixelRect)
        ensures
            r == (PixelRect { x: spec_character_topleft(self).0, y: spec_character_topleft(self).1, width: 16, height: 16 }),
    {
        let (x, y) = self.sprite_topleft_position();
        PixelRect { x, y, width: 16, height: 16 }
    }
}

/// The sprites of the enemies.
#[derive(Debug, Clone, Copy, PartialEq, Eq, Structural, Hash)]
pub enum EnemyTileType {
    HoodieLeft1,
    HoodieLeft2,
    HoodieLeft3,
    HoodieDown1,
    HoodieDown2,
    HoodieDown3,
    HoodieUp1,
    HoodieUp2,
    HoodieUp3,
    HoodieDeath1,
    HoodieDeath2,
    HoodieDeath3,
    GhostLeft1,
    GhostLeft2,
    GhostLeft3,
    GhostDown1,
    GhostDown2,
    GhostDown3,
    GhostUp1,
    GhostUp2,
    GhostUp3,
    GhostDeath1,
    GhostDeath2,
    GhostDeath3,
    GhostDeath4,
    ZombieLeft1,
    ZombieLeft2,
    ZombieLeft3,
    ZombieDown1,
    ZombieDown2,
    ZombieDown3,
    ZombieUp1,
    ZombieUp2,
    ZombieUp3,
    ZombieDeath1,
    ZombieDeath2,
    ZombieDeath3,
    ZombieDeath4,
}

/// The top-left corner of each sprite of the enemies in its atlas, in pixels.
pub open spec fn spec_enemy_topleft(t: EnemyTileType) -> (u32, u32) {
    match t {
        EnemyTileType::HoodieLeft1 => (1u32, 1u32),
        EnemyTileType::HoodieLeft2 => (18u32, 1u32),
        EnemyTileType::HoodieLeft3 => (35u32, 1u32),
        EnemyTileType::HoodieDown1 => (52u32, 1u32),
        EnemyTileType::HoodieDown2 => (69u32, 1u32),
        EnemyTileType::HoodieDown3 => (86u32, 1u32),
        EnemyTileType::HoodieUp1 => (103u32, 1u32),
        EnemyTileType::HoodieUp2 => (120u32, 1u32),
        EnemyTileType::HoodieUp3 => (137u32, 1u32),
        EnemyTileType::HoodieDeath1 => (154u32, 1u32),
        EnemyTileType::HoodieDeath2 => (171u32, 1u32),
        EnemyTileType::HoodieDeath3 => (188u32, 1u32),
        EnemyTileType::GhostLeft1 => (1u32, 18u32),
        EnemyTileType::GhostLeft2 => (18u32, 18u32),
        EnemyTileType::GhostLeft3 => (35u32, 18u32),
        EnemyTileType::GhostDown1 => (52u32, 18u32),
        EnemyTileType::GhostDown2 => (69u32, 18u32),
        EnemyTileType::GhostDown3 => (86u32, 18u32),
        EnemyTileType::GhostUp1 => (103u32, 18u32),
        EnemyTileType::GhostUp2 => (120u32, 18u32),
        EnemyTileType::GhostUp3 => (137u32, 18u32),
        EnemyTileType::GhostDeath1 => (154u32, 18u32),
        EnemyTileType::GhostDeath2 => (171u32, 18u32),
        EnemyTileType::GhostDeath3 => (188u32, 18u32),
        EnemyTileType::GhostDeath4 => (205u32, 18u32),
        EnemyTileType::ZombieLeft1 => (1u32, 137u32),
        EnemyTileType::ZombieLeft2 => (18u32, 137u32),
        EnemyTileType::ZombieLeft3 => (35u32, 137u32),
        EnemyTileType::ZombieDown1 => (52u32, 137u32),
        EnemyTileType::ZombieDown2 => (69u32, 137u32),
        EnemyTileType::ZombieDown3 => (86u32, 137u32),
        EnemyTileType::ZombieUp1 => (103u32, 137u32),
        EnemyTileType::ZombieUp2 => (120u32, 137u32),
        EnemyTileType::ZombieUp3 => (137u32, 137u32),
        EnemyTileType::ZombieDeath1 => (154u32, 137u32),
        EnemyTileType::ZombieDeath2 => (171u32, 137u32),
        EnemyTileType::ZombieDeath3 => (188u32, 137u32),
        EnemyTileType::ZombieDeath4 => (205u32, 137u32),
    }
}

impl EnemyTileType {
    /// The atlas holding the sprites of the enemies.
    pub fn tileset() -> (t: Tileset)
        ensures
            t == (Tileset { atlas_width: 222, atlas_height: 324, tile_width: 16, tile_height: 16 }),
    {
        Tileset { atlas_width: 222, atlas_height: 324, tile_width: 16, tile_height: 16 }
    }

    /// The top-left corner of the sprite in the atlas, in pixels.
    pub fn sprite_topleft_position(self) -> (r: (u32, u32))
        ensures
            r == spec_enemy_topleft(self),
    {
        match self {
            EnemyTileType::HoodieLeft1 => (1, 1),
            EnemyTileType::HoodieLeft2 => (18, 1),
            EnemyTileType::HoodieLeft3 => (35, 1),
            EnemyTileType::HoodieDown1 => (52, 1),
            EnemyTileType::HoodieDown2 => (69, 1),
            EnemyTileType::HoodieDown3 => (86, 1),
            EnemyTileType::HoodieUp1 => (103, 1),
            EnemyTileType::HoodieUp2 => (120, 1),
            EnemyTileType::HoodieUp3 => (137, 1),
            EnemyTileType::HoodieDeath1 => (154, 1),
            EnemyTileType::HoodieDeath2 => (171, 1),
            EnemyTileType::HoodieDeath3 => (188, 1),
            EnemyTileType::GhostLeft1 => (1, 18),
            EnemyTileType::GhostLeft2 => (18, 18),
            EnemyTileType::GhostLeft3 => (35, 18),
            EnemyTileType::GhostDown1 => (52, 18),
            EnemyTileType::GhostDown2 => (69, 18),
            EnemyTileType::GhostDown3 => (86, 18),
            EnemyTileType::GhostUp1 => (103, 18),
            EnemyTileType::GhostUp2 => (120, 18),
            EnemyTileType::GhostUp3 => (137, 18),
            EnemyTileType::GhostDeath1 => (154, 18),
            EnemyTileType::GhostDeath2 => (171, 18),
            EnemyTileType::GhostDeath3 => (188, 18),
            EnemyTileType::GhostDeath4 => (205, 18),
            EnemyTileType::ZombieLeft1 => (1, 137),
            EnemyTileType::ZombieLeft2 => (18, 137),
            EnemyTileType::ZombieLeft3 => (35, 137),
            EnemyTileType::ZombieDown1 => (52, 137),
            EnemyTileType::ZombieDown2 => (69, 137),
            EnemyTileType::ZombieDown3 => (86, 137),
            EnemyTileType::ZombieUp1 => (103, 137),
            EnemyTileType::ZombieUp2 => (120, 137),
            EnemyTileType::ZombieUp3 => (137, 137),
            EnemyTileType::ZombieDeath1 => (154, 137),
            EnemyTileType::ZombieDeath2 => (171, 137),
            EnemyTileType::ZombieDeath3 => (188, 137),
            EnemyTileType::ZombieDeath4 => (205, 137),
        }
    }

    /// The pixels of the sprite in the atlas.
    pub fn sprite_rect(self) -> (r: PixelRect)
        ensures
            r == (PixelRect { x: spec_enemy_topleft(self).0, y: spec_enemy_topleft(self).1, width: 16, height: 16 }),
    {
        let (x, y) = self.sprite_topleft_position();
        PixelRect { x, y, width: 16, height: 16 }
    }
}

/// The sprites of the map tiles.
#[derive(Debug, Clone, Copy, PartialEq, Eq, Structural, Hash)]
pub enum MapTileType {
    Floor,
    Wall,
    WallFade1,
    WallFade2,
    WallFade3,
    WallFade4,
    IndestructibleWall,
}

/// The top-left corner of each sprite of the map tiles in its atlas, in pixels.
pub open spec fn spec_map_topleft(t: MapTileType) -> (u32, u32) {
    match t {
        MapTileType::Floor => (86u32, 417u32),
        MapTileType::Wall => (1u32, 417u32),
        MapTileType::WallFade1 => (18u32, 417u32),
        MapTileType::WallFade2 => (35u32, 417u32),
        MapTileType::WallFade3 => (52u32, 417u32),
        MapTileType::WallFade4 => (69u32, 417u32),
        MapTileType::IndestructibleWall => (120u32, 417u32),
    }
}

impl MapTileType {
    /// The atlas holding the sprites of the map tiles.
    pub fn tileset() -> (t: Tileset)
        ensures
            t == (Tileset { atlas_width: 255, atlas_height: 434, tile_width: 16, tile_height: 16 }),
    {
        Tileset { atlas_width: 255, atlas_height: 434, tile_width: 16, tile_height: 16 }
    }

    /// The top-left corner of the sprite in the atlas, in pixels.
    pub fn sprite_topleft_position(self) -> (r: (u32, u32))
        ensures
            r == spec_map_topleft(self),
    {
        match self {
            MapTileType::Floor => (86, 417),
            MapTileType::Wall => (1, 417),
            MapTileType::WallFade1 => (18, 417),
            MapTileType::WallFade2 => (35, 417),
            MapTileType::WallFade3 => (52, 417),
            MapTileType::WallFade4 => (69, 417),
            MapTileType::IndestructibleWall => (120, 417),
        }
    }

    /// The pixels of the sprite in the atlas.
    pub fn sprite_rect(self) -> (r: PixelRect)
        ensures
            r == (PixelRect { x: spec_map_topleft(self).0, y: spec_map_topleft(self).1, width: 16, height: 16 }),
    {
        let (x, y) = self.sprite_topleft_position();
        PixelRect { x, y, width: 16, height: 16 }
    }
}

/// The sprites of the power-ups.
#[derive(Debug, Clone, Copy, PartialEq, Eq, Structural, Hash)]
pub enum PowerUpTileType {
    Range,
    BombCount,
    Negative,
    ExtraLife,
    Hook,
    BombKick,
    Detonator,
    Turbo,
    LineBomb,
    DoubleBomb,
    Max,
}

/// The top-left corner of each sprite of the power-ups in its atlas, in pixels.
pub open spec fn spec_power_up_topleft(t: PowerUpTileType) -> (u32, u32) {
    match t {
        PowerUpTileType::Range => (1u32, 135u32),
        PowerUpTileType::BombCount => (18u32, 135u32),
        PowerUpTileType::Negative => (35u32, 135u32),
        PowerUpTileType::ExtraLife => (52u32, 135u32),
        PowerUpTileType::Hook => (69u32, 135u32),
        PowerUpTileType::BombKick => (86u32, 135u32),
        PowerUpTileType::Detonator => (103u32, 135u32),
        PowerUpTileType::Turbo => (120u32, 135u32),
        PowerUpTileType::LineBomb => (137u32, 135u32),
        PowerUpTileType::DoubleBomb => (154u32, 135u32),
        PowerUpTileType::Max => (171u32, 135u32),
    }
}

impl PowerUpTileType {
    /// The atlas holding the sprites of the power-ups.
    pub fn tileset() -> (t: Tileset)
        ensures
            t == (Tileset { atlas_width: 222, atlas_height: 205, tile_width: 16, tile_height: 16 }),
    {
        Tileset { atlas_width: 222, atlas_height: 205, tile_width: 16, tile_height: 16 }
    }

    /// The top-left corner of the sprite in the atlas, in pixels.
    pub fn sprite_topleft_position(self) -> (r: (u32, u32))
        ensures
            r == spec_power_up_topleft(self),
    {
        match self {
            PowerUpTileType::Range => (1, 135),
            PowerUpTileType::BombCount => (18, 135),
            PowerUpTileType::Negative => (35, 135),
            PowerUpTileType::ExtraLife => (52, 135),
            PowerUpTileType::Hook => (69, 135),
            PowerUpTileType::BombKick => (86, 135),
            PowerUpTileType::Detonator => (103, 135),
            PowerUpTileType::Turbo => (120, 135),
            PowerUpTileType::LineBomb => (137, 135),
            PowerUpTileType::DoubleBomb => (154, 135),
            PowerUpTileType::Max => (171, 135),
        }
    }

    /// The pixels of the sprite in the atlas.
    pub fn sprite_rect(self) -> (r: PixelRect)
        ensures
            r == (PixelRect { x: spec_power_up_topleft(self).0, y: spec_power_up_topleft(self).1, width: 16, height: 16 }),
    {
        let (x, y) = self.sprite_topleft_position();
        PixelRect { x, y, width: 16, height: 16 }
    }
}

/// The sprites of the exit gate.
#[derive(Debug, Clone, Copy, PartialEq, Eq, Structural, Hash)]
pub enum MapGateTileType {
    Closed,
    Open,
}

/// The top-left corner of each sprite of the exit gate in its atlas, in pixels.
pub open spec fn spec_map_gate_topleft(t: MapGateTileType) -> (u32, u32) {
    match t {
        MapGateTileType::Closed => (145u32, 63u32),
        MapGateTileType::Open => (186u32, 63u32),
    }
}

impl MapGateTileType {
    /// The atlas holding the sprites of the exit gate.
    pub fn tileset() -> (t: Tileset)
        ensures
            t == (Tileset { atlas_width: 255, atlas_height: 424, tile_width: 32, tile_height: 26 }),
    {
        Tileset { atlas_width: 255, atlas_height: 424, tile_width: 32, tile_height: 26 }
    }

    /// The top-left corner of the sprite in the atlas, in pixels.
    pub fn sprite_topleft_position(self) -> (r: (u32, u32))
        ensures
            r == spec_map_gate_topleft(self),
    {
        match self {
            MapGateTileType::Closed => (145, 63),
            MapGateTileType::Open => (186, 63),
        }
    }

    /// The pixels of the sprite in the atlas.
    pub fn sprite_rect(self) -> (r: PixelRect)
        ensures
            r == (PixelRect { x: spec_map_gate_topleft(self).0, y: spec_map_gate_topleft(self).1, width: 32, height: 26 }),
    {
        let (x, y) = self.sprite_topleft_position();
        PixelRect { x, y, width: 32, height: 26 }
    }
}

} // verus!
