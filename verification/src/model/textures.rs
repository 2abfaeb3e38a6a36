use vstd::prelude::*;
use super::texture::{texture_views, Texture, TextureView};

verus! {

/// The texture of one layer.
#[derive(Debug, Clone)]
pub struct TextureLayer {
    pub texture: Texture,
}

/// The layers of one pattern on the x axis.
#[derive(Debug, Clone)]
pub struct TexturePatternX {
    pub layers: Vec<TextureLayer>,
}

/// The x patterns of one pattern on the y axis.
#[derive(Debug, Clone)]
pub struct TexturePatternY {
    pub patterns_x: Vec<TexturePatternX>,
}

/// The y patterns of one pattern on the z axis.
#[derive(Debug, Clone)]
pub struct TexturePatternZ {
    pub patterns_y: Vec<TexturePatternY>,
}

/// The z patterns of one frame.
#[derive(Debug, Clone)]
pub struct TextureFrame {
    pub patterns_z: Vec<TexturePatternZ>,
}

/// Every texture of an item, by frame, z pattern, y pattern, x pattern and
/// layer.
#[derive(Debug, Clone)]
pub struct Textures {
    pub frames: Vec<TextureFrame>,
}

/// Which texture of an item is asked for.
#[derive(Debug, Clone, Copy, PartialEq, Eq, Structural)]
pub struct TexturesGetBuilder {
    pub frame: usize,
    pub pattern_x: usize,
    pub pattern_y: usize,
    pub pattern_z: usize,
    pub layer: usize,
}

impl Default for TexturesGetBuilder {
    fn default() -> (b: Self)
        ensures
            b == (TexturesGetBuilder { frame: 0, pattern_x: 0, pattern_y: 0, pattern_z: 0, layer: 0 }),
    {
        TexturesGetBuilder { frame: 0, pattern_x: 0, pattern_y: 0, pattern_z: 0, layer: 0 }
    }
}

impl TexturesGetBuilder {
    /// The request for the first texture: every index zero.
    pub fn new() -> (b: Self)
        ensures
            b == (TexturesGetBuilder { frame: 0, pattern_x: 0, pattern_y: 0, pattern_z: 0, layer: 0 }),
    {
        TexturesGetBuilder { frame: 0, pattern_x: 0, pattern_y: 0, pattern_z: 0, layer: 0 }
    }

    /// The same request for the frame `frame`.
    pub fn frame(self, frame: usize) -> (b: Self)
        ensures
            b == (TexturesGetBuilder { frame, ..self }),
    {
        let mut b = self;
        b.frame = frame;
        b
    }

    /// The same request for the x pattern `pattern_x`.
    pub fn pattern_x(self, pattern_x: usize) -> (b: Self)
        ensures
            b == (TexturesGetBuilder { pattern_x, ..self }),
    {
        let mut b = self;
        b.pattern_x = pattern_x;
        b
    }

    /// The same request for the y pattern `pattern_y`.
    pub fn pattern_y(self, pattern_y: usize) -> (b: Self)
        ensures
            b == (TexturesGetBuilder { pattern_y, ..self }),
    {
        let mut b = self;
        b.pattern_y = pattern_y;
        b
    }

    /// The same request for the z pattern `pattern_z`.
    pub fn pattern_z(self, pattern_z: usize) -> (b: Self)
        ensures
            b == (TexturesGetBuilder { pattern_z, ..self }),
    {
        let mut b = self;
        b.pattern_z = pattern_z;
        b
    }

    /// The same request for the layer `layer`.
    pub fn layer(self, layer: usize) -> (b: Self)
        ensures
            b == (TexturesGetBuilder { layer, ..self }),
    {
        let mut b = self;
        b.layer = layer;
        b
    }
}

impl TexturePatternY {
    /// The textures of this y pattern, by x pattern and layer.
    pub open spec fn layout(&self) -> Seq<Seq<TextureView>> {
        Seq::new(self.patterns_x@.len(), |i: int| self.patterns_x@[i].textures())
    }
}

impl TexturePatternZ {
    /// The textures of this z pattern, by y pattern, x pattern and layer.
    pub open spec fn layout(&self) -> Seq<Seq<Seq<TextureView>>> {
        Seq::new(self.patterns_y@.len(), |i: int| self.patterns_y@[i].layout())
    }
}

impl TextureFrame {
    /// The textures of this frame, by z, y and x pattern and layer.
    pub open spec fn layout(&self) -> Seq<Seq<Seq<Seq<TextureView>>>> {
        Seq::new(self.patterns_z@.len(), |i: int| self.patterns_z@[i].layout())
    }
}

impl Textures {
    /// Every texture, by frame, z, y and x pattern and layer.
    pub open spec fn layout(&self) -> Seq<Seq<Seq<Seq<Seq<TextureView>>>>> {
        Seq::new(self.frames@.len(), |i: int| self.frames@[i].layout())
    }
}

impl TexturePatternX {
    /// The textures of the layers, in order.
    pub open spec fn textures(&self) -> Seq<TextureView> {
        Seq::new(self.layers@.len(), |i: int| self.layers@[i].texture@)
    }

    /// Adds the textures of the layers to `out`.
    pub fn collect(&self, out: &mut Vec<Texture>)
        ensures
            texture_views(final(out)@) == texture_views(old(out)@) + self.textures(),
    {
        let mut i: usize = 0;
        while i < self.layers.len()
            invariant
                i <= self.layers.len(),
                texture_views(out@) == texture_views(old(out)@) + self.textures().take(i as int),
            decreases self.layers.len() - i,
        {
            let ghost before = out@;
            let texture = self.layers[i].texture.clone();
            out.push(texture);
            i = i + 1;
            assert(texture_views(out@) =~= texture_views(before).push(texture@));
            assert(self.textures().take(i as int) =~= self.textures().take(i - 1).push(texture@));
            assert(texture_views(out@) =~= texture_views(old(out)@) + self.textures().take(
                i as int,
            ));
        }
        assert(self.textures().take(i as int) =~= self.textures());
    }
}

impl TexturePatternY {
    /// The textures of the first `n` x patterns, in order.
    pub open spec fn textures_upto(&self, n: int) -> Seq<TextureView>
        decreases n,
    {
        if n <= 0 {
            Seq::empty()
        } else {
            self.textures_upto(n - 1) + self.patterns_x@[n - 1].textures()
        }
    }

    /// The textures of all x patterns, in order.
    pub open spec fn textures(&self) -> Seq<TextureView> {
        self.textures_upto(self.patterns_x@.len() as int)
    }

    /// Adds the textures of all x patterns to `out`.
    pub fn collect(&self, out: &mut Vec<Texture>)
        ensures
            texture_views(final(out)@) == texture_views(old(out)@) + self.textures(),
    {
        let mut i: usize = 0;
        assert(texture_views(out@) =~= texture_views(old(out)@) + self.textures_upto(0));
        while i < self.patterns_x.len()
            invariant
                i <= self.patterns_x.len(),
                texture_views(out@) == texture_views(old(out)@) + self.textures_upto(i as int),
            decreases self.patterns_x.len() - i,
        {
            self.patterns_x[i].collect(out);
            i = i + 1;
            assert(texture_views(out@) =~= texture_views(old(out)@) + self.textures_upto(i as int));
        }
    }
}

impl TexturePatternZ {
    /// The textures of the first `n` y patterns, in order.
    pub open spec fn textures_upto(&self, n: int) -> Seq<TextureView>
        decreases n,
    {
        if n <= 0 {
            Seq::empty()
        } else {
            self.textures_upto(n - 1) + self.patterns_y@[n - 1].textures()
        }
    }

    /// The textures of all y patterns, in order.
    pub open spec fn textures(&self) -> Seq<TextureView> {
        self.textures_upto(self.patterns_y@.len() as int)
    }

    /// Adds the textures of all y patterns to `out`.
    pub fn collect(&self, out: &mut Vec<Texture>)
        ensures
            texture_views(final(out)@) == texture_views(old(out)@) + self.textures(),
    {
        let mut i: usize = 0;
        assert(texture_views(out@) =~= texture_views(old(out)@) + self.textures_upto(0));
        while i < self.patterns_y.len()
            invariant
                i <= self.patterns_y.len(),
                texture_views(out@) == texture_views(old(out)@) + self.textures_upto(i as int),
            decreases self.patterns_y.len() - i,
        {
            self.patterns_y[i].collect(out);
            i = i + 1;
            assert(texture_views(out@) =~= texture_views(old(out)@) + self.textures_upto(i as int));
        }
    }
}

impl TextureFrame {
    /// The textures of the first `n` z patterns, in order.
    pub open spec fn textures_upto(&self, n: int) -> Seq<TextureView>
        decreases n,
    {
        if n <= 0 {
            Seq::empty()
        } else {
            self.textures_upto(n - 1) + self.patterns_z@[n - 1].textures()
        }
    }

    /// The textures of all z patterns, in order.
    pub open spec fn textures(&self) -> Seq<TextureView> {
        self.textures_upto(self.patterns_z@.len() as int)
    }

    /// Adds the textures of all z patterns to `out`.
    pub fn collect(&self, out: &mut Vec<Texture>)
        ensures
            texture_views(final(out)@) == texture_views(old(out)@) + self.textures(),
    {
        let mut i: usize = 0;
        assert(texture_views(out@) =~= texture_views(old(out)@) + self.textures_upto(0));
        while i < self.patterns_z.len()
            invariant
                i <= self.patterns_z.len(),
                texture_views(out@) == texture_views(old(out)@) + self.textures_upto(i as int),
            decreases self.patterns_z.len() - i,
        {
            self.patterns_z[i].collect(out);
            i = i + 1;
            assert(texture_views(out@) =~= texture_views(old(out)@) + self.textures_upto(i as int));
        }
    }
}

impl Textures {
    /// The textures of the first `n` frames, in order.
    pub open spec fn textures_upto(&self, n: int) -> Seq<TextureView>
        decreases n,
    {
        if n <= 0 {
            Seq::empty()
        } else {
            self.textures_upto(n - 1) + self.frames@[n - 1].textures()
        }
    }

    /// Every texture: frame by frame, inside a frame z pattern by z
    /// pattern, then by y pattern, x pattern and layer.
    pub open spec fn textures(&self) -> Seq<TextureView> {
        self.textures_upto(self.frames@.len() as int)
    }

    /// The request `b` names a texture that is there: the frame and the
    /// layer exist, and the frame has patterns on every axis.
    pub open spec fn holds(&self, b: TexturesGetBuilder) -> bool {
        &&& b.frame < self.frames@.len()
        &&& self.frames@[b.frame as int].patterns_z@.len() > 0
        &&& self.at_z(b).patterns_y@.len() > 0
        &&& self.at_y(b).patterns_x@.len() > 0
        &&& b.layer < self.at_x(b).layers@.len()
    }

    /// The z pattern that `b` names: its index wraps around.
    pub open spec fn at_z(&self, b: TexturesGetBuilder) -> TexturePatternZ {
        let f = self.frames@[b.frame as int];
        f.patterns_z@[b.pattern_z as int % f.patterns_z@.len() as int]
    }

    /// The y pattern that `b` names: its index wraps around.
    pub open spec fn at_y(&self, b: TexturesGetBuilder) -> TexturePatternY {
        let z = self.at_z(b);
        z.patterns_y@[b.pattern_y as int % z.patterns_y@.len() as int]
    }

    /// The x pattern that `b` names: its index wraps around.
    pub open spec fn at_x(&self, b: TexturesGetBuilder) -> TexturePatternX {
        let y = self.at_y(b);
        y.patterns_x@[b.pattern_x as int % y.patterns_x@.len() as int]
    }

    /// Whether the request `b` names a texture that is there: see
    /// [`Textures::holds`].
    pub fn contains(&self, b: TexturesGetBuilder) -> (r: bool)
        ensures
            r == self.holds(b),
    {
        if b.frame >= self.frames.len() {
            return false;
        }
        let f = &self.frames[b.frame];
        if f.patterns_z.len() == 0 {
            return false;
        }
        let z = &f.patterns_z[b.pattern_z % f.patterns_z.len()];
        if z.patterns_y.len() == 0 {
            return false;
        }
        let y = &z.patterns_y[b.pattern_y % z.patterns_y.len()];
        if y.patterns_x.len() == 0 {
            return false;
        }
        let x = &y.patterns_x[b.pattern_x % y.patterns_x.len()];
        b.layer < x.layers.len()
    }

    /// The first texture: frame, patterns and layer zero.
    pub fn get_default(&self) -> (t: &Texture)
        requires
            self.holds(
                TexturesGetBuilder { frame: 0, pattern_x: 0, pattern_y: 0, pattern_z: 0, layer: 0 },
            ),
        ensures
            *t == self.frames@[0].patterns_z@[0].patterns_y@[0].patterns_x@[0].layers@[0].texture,
    {
        proof {
            let nz = self.frames@[0].patterns_z@.len() as int;
            assert(0int % nz == 0) by (nonlinear_arith)
                requires
                    nz > 0,
            ;
            let ny = self.frames@[0].patterns_z@[0].patterns_y@.len() as int;
            assert(0int % ny == 0) by (nonlinear_arith)
                requires
                    ny > 0,
            ;
            let nx = self.frames@[0].patterns_z@[0].patterns_y@[0].patterns_x@.len() as int;
            assert(0int % nx == 0) by (nonlinear_arith)
                requires
                    nx > 0,
            ;
        }
        self.get(TexturesGetBuilder::new())
    }

    /// The texture that `b` names. The frame and the layer must exist; the
    /// three pattern indices wrap around.
    pub fn get(&self, b: TexturesGetBuilder) -> (t: &Texture)
        requires
            self.holds(b),
        ensures
            *t == self.at_x(b).layers@[b.layer as int].texture,
    {
        let f = &self.frames[b.frame];
        let z = &f.patterns_z[b.pattern_z % f.patterns_z.len()];
        let y = &z.patterns_y[b.pattern_y % z.patterns_y.len()];
        let x = &y.patterns_x[b.pattern_x % y.patterns_x.len()];
        let l = &x.layers[b.layer];
        &l.texture
    }

    /// A copy of every texture: see [`Textures::textures`].
    pub fn get_all(&self) -> (all: Vec<Texture>)
        ensures
            texture_views(all@) == self.textures(),
    {
        let mut all: Vec<Texture> = Vec::new();
        let mut i: usize = 0;
        assert(texture_views(all@) =~= self.textures_upto(0));
        while i < self.frames.len()
            invariant
                i <= self.frames.len(),
                texture_views(all@) == self.textures_upto(i as int),
            decreases self.frames.len() - i,
        {
            self.frames[i].collect(&mut all);
            i = i + 1;
        }
        all
    }
}

} // verus!
