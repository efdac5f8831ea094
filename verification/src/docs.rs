//! The built-in documentation of GLSL: functions with their overloads,
//! types, keywords, variables and preprocessor directives.
use vstd::prelude::*;
use crate::text::{chars_of, eq, split_char, split_char_of, string_of, views};

verus! {

/// The built-in functions: name, description, and the range of their overloads in [`OVERLOADS`].
pub const BUILTIN_FUNCTIONS: [(&'static str, &'static str, usize, usize); 71] = [
    (
        "length",
        "### `length`\n*docs.gl / OpenGL 4.6*\n\nCalculates the length of a vector.\n\n$$\\text{length}(x) = \\sqrt{x[0]^2 + x[1]^2 + \\dots}$$\n\n**Parameters:**\n* `x`: Specifies a vector to calculate the length of.",
        0,
        8,
    ),
    (
        "distance",
        "### `distance`\n*docs.gl / OpenGL 4.6*\n\nCalculates the distance between two points.\n\n$$\\text{distance}(p0, p1) = \\text{length}(p0 - p1)$$\n\n**Parameters:**\n* `p0`: Specifies the first point.\n* `p1`: Specifies the second point.",
        8,
        16,
    ),
    (
        "dot",
        "### `dot`\n*docs.gl / OpenGL 4.6*\n\nCalculates the dot product (scalar product) of two vectors.\n\n$$\\text{dot}(x, y) = x[0] \\cdot y[0] + x[1] \\cdot y[1] + \\dots$$\n\n**Parameters:**\n* `x`: Specifies the first vector.\n* `y`: Specifies the second vector.",
        16,
        24,
    ),
    (
        "cross",
        "### `cross`\n*docs.gl / OpenGL 4.6*\n\nCalculates the cross product of two 3D vectors.\n\n$$\\text{cross}(x, y) = \\begin{pmatrix} x[1]y[2] - y[1]x[2] \\\\ x[2]y[0] - y[2]x[0] \\\\ x[0]y[1] - y[0]x[1] \\end{pmatrix}$$\n\n**Parameters:**\n* `x`: Specifies the first vector.\n* `y`: Specifies the second vector.",
        24,
        26,
    ),
    (
        "normalize",
        "### `normalize`\n*docs.gl / OpenGL 4.6*\n\nCalculates the unit vector in the same direction as the original vector.\n\n$$\\text{normalize}(x) = \\frac{x}{\\text{length}(x)}$$\n\n**Parameters:**\n* `x`: Specifies the vector to normalize.",
        26,
        34,
    ),
    (
        "faceforward",
        "### `faceforward`\n*docs.gl / OpenGL 4.6*\n\nReturns a vector pointing in the same direction as another.\n\nIf `dot(Nref, I) < 0.0`, returns `N`, otherwise returns `-N`.\n\n**Parameters:**\n* `N`: Specifies the vector to orient.\n* `I`: Specifies the incident vector.\n* `Nref`: Specifies the reference vector.",
        34,
        42,
    ),
    (
        "reflect",
        "### `reflect`\n*docs.gl / OpenGL 4.6*\n\nCalculates the reflection direction for an incident vector.\n\n$$\\text{reflect}(I, N) = I - 2 \\cdot \\text{dot}(N, I) \\cdot N$$\n\n`N` must be normalized.\n\n**Parameters:**\n* `I`: Specifies the incident vector.\n* `N`: Specifies the normal vector.",
        42,
        50,
    ),
    (
        "refract",
        "### `refract`\n*docs.gl / OpenGL 4.6*\n\nCalculates the refraction direction for an incident vector.\n\nUses Snell's law: calculates refraction of incident vector `I` with surface normal `N` and ratio of indices of refraction `eta`.\n\n**Parameters:**\n* `I`: Specifies the incident vector.\n* `N`: Specifies the normal vector.\n* `eta`: Specifies the ratio of indices of refraction.",
        50,
        58,
    ),
    (
        "clamp",
        "### `clamp`\n*docs.gl / OpenGL 4.6*\n\nConstrains a value to lie between two further values.\n\n$$\\text{clamp}(x, \\minVal, \\maxVal) = \\min(\\max(x, \\minVal), \\maxVal)$$\n\n**Parameters:**\n* `x`: Specify the value to constrain.\n* `minVal`: Specify the lower bound of the range.\n* `maxVal`: Specify the upper bound of the range.",
        58,
        67,
    ),
    (
        "mix",
        "### `mix`\n*docs.gl / OpenGL 4.6*\n\nLinearly interpolates between two values.\n\n$$\\text{mix}(x, y, a) = x \\cdot (1 - a) + y \\cdot a$$\n\n**Parameters:**\n* `x`: Specify the start of the range.\n* `y`: Specify the end of the range.\n* `a`: Specify the interpolation factor (or boolean mask).",
        67,
        75,
    ),
    (
        "step",
        "### `step`\n*docs.gl / OpenGL 4.6*\n\nGenerates a step function by comparing two values.\n\nReturns `0.0` if `x < edge`, otherwise `1.0`.\n\n**Parameters:**\n* `edge`: Specifies the location of the edge of the step function.\n* `x`: Specifies the value to be evaluated.",
        75,
        82,
    ),
    (
        "smoothstep",
        "### `smoothstep`\n*docs.gl / OpenGL 4.6*\n\nPerforms smooth Hermite interpolation between 0 and 1 when $edge0 < x < edge1$.\n\nUseful for thresholding and anti-aliased transitions.\n\n**Parameters:**\n* `edge0`: Specifies the lower edge.\n* `edge1`: Specifies the upper edge.\n* `x`: Specifies the source value for interpolation.",
        82,
        89,
    ),
    (
        "abs",
        "### `abs`\n*docs.gl / OpenGL 4.6*\n\nReturns the absolute value of the parameter.\n\n**Parameters:**\n* `x`: Specifies the value of which to return the absolute value.",
        89,
        97,
    ),
    (
        "sign",
        "### `sign`\n*docs.gl / OpenGL 4.6*\n\nExtracts the sign of the parameter.\n\nReturns `1.0` if `x > 0`, `0.0` if `x == 0`, and `-1.0` if `x < 0`.\n\n**Parameters:**\n* `x`: Specifies the value from which to extract the sign.",
        97,
        102,
    ),
    (
        "floor",
        "### `floor`\n*docs.gl / OpenGL 4.6*\n\nFinds the nearest integer less than or equal to the parameter.\n\n**Parameters:**\n* `x`: Specifies the value to evaluate.",
        102,
        106,
    ),
    (
        "ceil",
        "### `ceil`\n*docs.gl / OpenGL 4.6*\n\nFinds the nearest integer greater than or equal to the parameter.\n\n**Parameters:**\n* `x`: Specifies the value to evaluate.",
        106,
        110,
    ),
    (
        "fract",
        "### `fract`\n*docs.gl / OpenGL 4.6*\n\nComputes the fractional part of the argument.\n\n$$\\text{fract}(x) = x - \\text{floor}(x)$$\n\n**Parameters:**\n* `x`: Specifies the value from which to obtain the fractional part.",
        110,
        114,
    ),
    (
        "mod",
        "### `mod`\n*docs.gl / OpenGL 4.6*\n\nComputes value of one parameter modulo another.\n\n$$\\text{mod}(x, y) = x - y \\cdot \\text{floor}(x / y)$$\n\n**Parameters:**\n* `x`: Specifies the numerator.\n* `y`: Specifies the denominator.",
        114,
        121,
    ),
    (
        "min",
        "### `min`\n*docs.gl / OpenGL 4.6*\n\nReturns the minimum of two values.\n\n**Parameters:**\n* `x`: Specifies the first value.\n* `y`: Specifies the second value.",
        121,
        130,
    ),
    (
        "max",
        "### `max`\n*docs.gl / OpenGL 4.6*\n\nReturns the maximum of two values.\n\n**Parameters:**\n* `x`: Specifies the first value.\n* `y`: Specifies the second value.",
        130,
        139,
    ),
    (
        "sin",
        "### `sin`\n*docs.gl / OpenGL 4.6*\n\nReturns the sine of the parameter (in radians).\n\n**Parameters:**\n* `angle`: Specifies the angle, in radians.",
        139,
        143,
    ),
    (
        "cos",
        "### `cos`\n*docs.gl / OpenGL 4.6*\n\nReturns the cosine of the parameter (in radians).\n\n**Parameters:**\n* `angle`: Specifies the angle, in radians.",
        143,
        147,
    ),
    (
        "tan",
        "### `tan`\n*docs.gl / OpenGL 4.6*\n\nReturns the tangent of the parameter (in radians).\n\n**Parameters:**\n* `angle`: Specifies the angle, in radians.",
        147,
        151,
    ),
    (
        "asin",
        "### `asin`\n*docs.gl / OpenGL 4.6*\n\nReturns the arcsine of the parameter in range $[-\\pi/2, \\pi/2]$.\n\n**Parameters:**\n* `x`: Specifies the value whose arcsine to return.",
        151,
        155,
    ),
    (
        "acos",
        "### `acos`\n*docs.gl / OpenGL 4.6*\n\nReturns the arccosine of the parameter in range $[0, \\pi]$.\n\n**Parameters:**\n* `x`: Specifies the value whose arccosine to return.",
        155,
        159,
    ),
    (
        "atan",
        "### `atan`\n*docs.gl / OpenGL 4.6*\n\nReturns the arc-tangent of the parameter.\n\n* 1-argument variant: returns $\\arctan(y)$ in range $[-\\pi/2, \\pi/2]$.\n* 2-argument variant: returns $\\text{atan2}(y, x)$ in range $[-\\pi, \\pi]$.\n\n**Parameters:**\n* `y`: Specifies the numerator of tangent (or opposite side).\n* `x`: Specifies the denominator of tangent (or adjacent side).",
        159,
        167,
    ),
    (
        "pow",
        "### `pow`\n*docs.gl / OpenGL 4.6*\n\nReturns the value of the first parameter raised to the power of the second ($x^y$).\n\nResults are undefined if $x < 0$ or if $x = 0$ and $y \\le 0$.\n\n**Parameters:**\n* `x`: Specifies the base.\n* `y`: Specifies the exponent.",
        167,
        171,
    ),
    (
        "exp",
        "### `exp`\n*docs.gl / OpenGL 4.6*\n\nReturns the natural exponentiation of the parameter ($e^x$).\n\n**Parameters:**\n* `x`: Specifies the exponent value.",
        171,
        175,
    ),
    (
        "log",
        "### `log`\n*docs.gl / OpenGL 4.6*\n\nReturns the natural logarithm of the parameter ($\\ln(x)$).\n\n**Parameters:**\n* `x`: Specifies the value of which to calculate natural log.",
        175,
        179,
    ),
    (
        "sqrt",
        "### `sqrt`\n*docs.gl / OpenGL 4.6*\n\nReturns the square root of the parameter ($\\sqrt{x}$).\n\n**Parameters:**\n* `x`: Specifies the value of which to calculate square root.",
        179,
        183,
    ),
    (
        "inversesqrt",
        "### `inversesqrt`\n*docs.gl / OpenGL 4.6*\n\nReturns the inverse square root of the parameter ($1 / \\sqrt{x}$).\n\n**Parameters:**\n* `x`: Specifies the value of which to calculate inverse square root.",
        183,
        187,
    ),
    (
        "transpose",
        "### `transpose`\n*docs.gl / OpenGL 4.6*\n\nCalculates the transpose of a matrix.\n\n**Parameters:**\n* `m`: Specifies the matrix to transpose.",
        187,
        196,
    ),
    (
        "determinant",
        "### `determinant`\n*docs.gl / OpenGL 4.6*\n\nCalculates the determinant of a square matrix.\n\n**Parameters:**\n* `m`: Specifies the matrix of which to calculate the determinant.",
        196,
        202,
    ),
    (
        "inverse",
        "### `inverse`\n*docs.gl / OpenGL 4.6*\n\nCalculates the inverse of a square matrix such that $M \\cdot M^{-1} = I$.\n\n**Parameters:**\n* `m`: Specifies the matrix of which to calculate inverse.",
        202,
        208,
    ),
    (
        "texture",
        "### `texture`\n*docs.gl / OpenGL 4.6*\n\nRetrieves texels from a texture.\n\nSamples texture `sampler` at texture coordinates `P`.\n\n**Parameters:**\n* `sampler`: Specifies the sampler to which the texture is bound.\n* `P`: Specifies texture coordinates (e.g. `vec2` for 2D, `vec3` for cube/3D).\n* `bias`: Optional mipmap LOD bias.",
        208,
        216,
    ),
    (
        "textureLod",
        "### `textureLod`\n*docs.gl / OpenGL 4.6*\n\nRetrieves texels from a texture with explicit Level of Detail (LOD).\n\n**Parameters:**\n* `sampler`: Specifies the sampler bound to texture.\n* `P`: Specifies texture coordinates.\n* `lod`: Specifies explicit mipmap level of detail.",
        216,
        221,
    ),
    (
        "texelFetch",
        "### `texelFetch`\n*docs.gl / OpenGL 4.6*\n\nPerforms an unfiltered single-texel lookup using non-normalized integer coordinates.\n\n**Parameters:**\n* `sampler`: Specifies the sampler.\n* `P`: Specifies integer texel coordinates.\n* `lod`: Specifies mipmap level to look up.",
        221,
        226,
    ),
    (
        "textureSize",
        "### `textureSize`\n*docs.gl / OpenGL 4.6*\n\nRetrieves the dimensions of a texture level in texels.\n\n**Parameters:**\n* `sampler`: Specifies the sampler.\n* `lod`: Specifies the mipmap level.",
        226,
        233,
    ),
    (
        "dFdx",
        "### `dFdx`\n*docs.gl / OpenGL 4.6*\n\nReturns the partial derivative with respect to screen-space $x$ coordinate.\n\n$$\\frac{\\partial p}{\\partial x}$$\n\n**Parameters:**\n* `p`: Specifies the expression to evaluate derivative of.",
        233,
        237,
    ),
    (
        "dFdy",
        "### `dFdy`\n*docs.gl / OpenGL 4.6*\n\nReturns the partial derivative with respect to screen-space $y$ coordinate.\n\n$$\\frac{\\partial p}{\\partial y}$$\n\n**Parameters:**\n* `p`: Specifies the expression to evaluate derivative of.",
        237,
        241,
    ),
    (
        "fwidth",
        "### `fwidth`\n*docs.gl / OpenGL 4.6*\n\nReturns the sum of the absolute values of derivatives in $x$ and $y$.\n\n$$\\text{fwidth}(p) = |\\text{dFdx}(p)| + |\\text{dFdy}(p)|$$\n\nUseful for computing screen-space filter widths and anti-aliased wireframes/edges.\n\n**Parameters:**\n* `p`: Specifies the expression to evaluate.",
        241,
        245,
    ),
    (
        "barrier",
        "### `barrier`\n*docs.gl / OpenGL 4.6*\n\nSynchronizes execution of all invocations in the current work group or compute shader workgroup.\n\nAll invocations in the work group must execute this function before any are allowed to continue.",
        245,
        246,
    ),
    (
        "memoryBarrier",
        "### `memoryBarrier`\n*docs.gl / OpenGL 4.6*\n\nControls the ordering of memory transactions issued by a shader invocation.\n\nWaits on the completion of all memory accesses.",
        246,
        247,
    ),
    (
        "memoryBarrierShared",
        "### `memoryBarrierShared`\n*docs.gl / OpenGL 4.6*\n\nControls the ordering of memory transactions issued for variables declared `shared` in a compute shader.",
        247,
        248,
    ),
    (
        "groupMemoryBarrier",
        "### `groupMemoryBarrier`\n*docs.gl / OpenGL 4.6*\n\nControls the ordering of all memory transactions issued by all invocations in the work group.",
        248,
        249,
    ),
    (
        "transpose",
        "### `transpose`\n*docs.gl / OpenGL 4.6*\n\nCalculates the transpose of a matrix.\n\n$$\\text{transpose}(m)_{ij} = m_{ji}$$\n\n**Parameters:**\n* `m`: Specifies the matrix to transpose.",
        249,
        261,
    ),
    (
        "inverse",
        "### `inverse`\n*docs.gl / OpenGL 4.6*\n\nCalculates the inverse of a matrix.\n\n$$\\text{inverse}(m) \\cdot m = I$$\n\n**Parameters:**\n* `m`: Specifies the matrix of which to take the inverse.",
        261,
        267,
    ),
    (
        "determinant",
        "### `determinant`\n*docs.gl / OpenGL 4.6*\n\nCalculates the determinant of a square matrix.\n\n**Parameters:**\n* `m`: Specifies the square matrix to evaluate.",
        267,
        273,
    ),
    (
        "matrixCompMult",
        "### `matrixCompMult`\n*docs.gl / OpenGL 4.6*\n\nPerforms component-wise multiplication of two matrices.\n\n$$z_{ij} = x_{ij} \\cdot y_{ij}$$\n\n**Parameters:**\n* `x`: Specifies the first matrix.\n* `y`: Specifies the second matrix.",
        273,
        276,
    ),
    (
        "outerProduct",
        "### `outerProduct`\n*docs.gl / OpenGL 4.6*\n\nCalculates the outer product of a column vector and row vector.\n\n$$m_{ij} = c_i \\cdot r_j$$\n\n**Parameters:**\n* `c`: Specifies the column vector.\n* `r`: Specifies the row vector.",
        276,
        279,
    ),
    (
        "lessThan",
        "### `lessThan`\n*docs.gl / OpenGL 4.6*\n\nPerforms a component-wise less-than comparison ($x < y$).",
        279,
        288,
    ),
    (
        "lessThanEqual",
        "### `lessThanEqual`\n*docs.gl / OpenGL 4.6*\n\nPerforms a component-wise less-than-or-equal comparison ($x \\le y$).",
        288,
        294,
    ),
    (
        "greaterThan",
        "### `greaterThan`\n*docs.gl / OpenGL 4.6*\n\nPerforms a component-wise greater-than comparison ($x > y$).",
        294,
        300,
    ),
    (
        "greaterThanEqual",
        "### `greaterThanEqual`\n*docs.gl / OpenGL 4.6*\n\nPerforms a component-wise greater-than-or-equal comparison ($x \\ge y$).",
        300,
        306,
    ),
    (
        "equal",
        "### `equal`\n*docs.gl / OpenGL 4.6*\n\nReturns a component-wise boolean vector comparing if $x == y$.",
        306,
        315,
    ),
    (
        "notEqual",
        "### `notEqual`\n*docs.gl / OpenGL 4.6*\n\nReturns a component-wise boolean vector comparing if $x \\ne y$.",
        315,
        324,
    ),
    (
        "any",
        "### `any`\n*docs.gl / OpenGL 4.6*\n\nReturns `true` if any component of a boolean vector is true.",
        324,
        327,
    ),
    (
        "all",
        "### `all`\n*docs.gl / OpenGL 4.6*\n\nReturns `true` only if all components of a boolean vector are true.",
        327,
        330,
    ),
    (
        "not",
        "### `not`\n*docs.gl / OpenGL 4.6*\n\nPerforms a component-wise logical NOT operation on a boolean vector.",
        330,
        333,
    ),
    (
        "fma",
        "### `fma`\n*docs.gl / OpenGL 4.6*\n\nPerforms fused multiply-add operation: $a \\cdot b + c$ with a single rounding step.",
        333,
        337,
    ),
    (
        "bitfieldExtract",
        "### `bitfieldExtract`\n*docs.gl / OpenGL 4.6*\n\nExtracts a range of bits from an integer.",
        337,
        339,
    ),
    (
        "bitfieldInsert",
        "### `bitfieldInsert`\n*docs.gl / OpenGL 4.6*\n\nInserts a range of bits into an integer.",
        339,
        341,
    ),
    (
        "bitfieldReverse",
        "### `bitfieldReverse`\n*docs.gl / OpenGL 4.6*\n\nReverses the order of bits in an integer.",
        341,
        343,
    ),
    (
        "bitCount",
        "### `bitCount`\n*docs.gl / OpenGL 4.6*\n\nCounts the number of one-bits (population count) in an integer.",
        343,
        345,
    ),
    (
        "findLSB",
        "### `findLSB`\n*docs.gl / OpenGL 4.6*\n\nFinds the index of the least significant set bit.",
        345,
        347,
    ),
    (
        "findMSB",
        "### `findMSB`\n*docs.gl / OpenGL 4.6*\n\nFinds the index of the most significant set bit.",
        347,
        349,
    ),
    (
        "floatBitsToInt",
        "### `floatBitsToInt`\n*docs.gl / OpenGL 4.6*\n\nReturns the IEEE 754 bit representation of a floating-point value as an integer.",
        349,
        353,
    ),
    (
        "floatBitsToUint",
        "### `floatBitsToUint`\n*docs.gl / OpenGL 4.6*\n\nReturns the IEEE 754 bit representation of a floating-point value as an unsigned integer.",
        353,
        357,
    ),
    (
        "intBitsToFloat",
        "### `intBitsToFloat`\n*docs.gl / OpenGL 4.6*\n\nInterprets the bit pattern of an integer as an IEEE 754 floating-point value.",
        357,
        361,
    ),
    (
        "uintBitsToFloat",
        "### `uintBitsToFloat`\n*docs.gl / OpenGL 4.6*\n\nInterprets the bit pattern of an unsigned integer as an IEEE 754 floating-point value.",
        361,
        365,
    ),
    (
        "atomicAdd",
        "### `atomicAdd`\n*docs.gl / OpenGL 4.6*\n\nPerforms an atomic addition on a shared variable or shader storage buffer object.",
        365,
        367,
    ),
];

/// The overloads of the built-in functions: label, and parameters separated by `|`.
pub const OVERLOADS: [(&'static str, &'static str); 367] = [
    ("float length(float x)", "float x"),
    ("float length(vec2 x)", "vec2 x"),
    ("float length(vec3 x)", "vec3 x"),
    ("float length(vec4 x)", "vec4 x"),
    ("double length(double x)", "double x"),
    ("double length(dvec2 x)", "dvec2 x"),
    ("double length(dvec3 x)", "dvec3 x"),
    ("double length(dvec4 x)", "dvec4 x"),
    ("float distance(float p0, float p1)", "float p0|float p1"),
    ("float distance(vec2 p0, vec2 p1)", "vec2 p0|vec2 p1"),
    ("float distance(vec3 p0, vec3 p1)", "vec3 p0|vec3 p1"),
    ("float distance(vec4 p0, vec4 p1)", "vec4 p0|vec4 p1"),
    ("double distance(double p0, double p1)", "double p0|double p1"),
    ("double distance(dvec2 p0, dvec2 p1)", "dvec2 p0|dvec2 p1"),
    ("double distance(dvec3 p0, dvec3 p1)", "dvec3 p0|dvec3 p1"),
    ("double distance(dvec4 p0, dvec4 p1)", "dvec4 p0|dvec4 p1"),
    ("float dot(float x, float y)", "float x|float y"),
    ("float dot(vec2 x, vec2 y)", "vec2 x|vec2 y"),
    ("float dot(vec3 x, vec3 y)", "vec3 x|vec3 y"),
    ("float dot(vec4 x, vec4 y)", "vec4 x|vec4 y"),
    ("double dot(double x, double y)", "double x|double y"),
    ("double dot(dvec2 x, dvec2 y)", "dvec2 x|dvec2 y"),
    ("double dot(dvec3 x, dvec3 y)", "dvec3 x|dvec3 y"),
    ("double dot(dvec4 x, dvec4 y)", "dvec4 x|dvec4 y"),
    ("vec3 cross(vec3 x, vec3 y)", "vec3 x|vec3 y"),
    ("dvec3 cross(dvec3 x, dvec3 y)", "dvec3 x|dvec3 y"),
    ("float normalize(float x)", "float x"),
    ("vec2 normalize(vec2 x)", "vec2 x"),
    ("vec3 normalize(vec3 x)", "vec3 x"),
    ("vec4 normalize(vec4 x)", "vec4 x"),
    ("double normalize(double x)", "double x"),
    ("dvec2 normalize(dvec2 x)", "dvec2 x"),
    ("dvec3 normalize(dvec3 x)", "dvec3 x"),
    ("dvec4 normalize(dvec4 x)", "dvec4 x"),
    ("float faceforward(float N, float I, float Nref)", "float N|float I|float Nref"),
    ("vec2 faceforward(vec2 N, vec2 I, vec2 Nref)", "vec2 N|vec2 I|vec2 Nref"),
    ("vec3 faceforward(vec3 N, vec3 I, vec3 Nref)", "vec3 N|vec3 I|vec3 Nref"),
    ("vec4 faceforward(vec4 N, vec4 I, vec4 Nref)", "vec4 N|vec4 I|vec4 Nref"),
    ("double faceforward(double N, double I, double Nref)", "double N|double I|double Nref"),
    ("dvec2 faceforward(dvec2 N, dvec2 I, dvec2 Nref)", "dvec2 N|dvec2 I|dvec2 Nref"),
    ("dvec3 faceforward(dvec3 N, dvec3 I, dvec3 Nref)", "dvec3 N|dvec3 I|dvec3 Nref"),
    ("dvec4 faceforward(dvec4 N, dvec4 I, dvec4 Nref)", "dvec4 N|dvec4 I|dvec4 Nref"),
    ("float reflect(float I, float N)", "float I|float N"),
    ("vec2 reflect(vec2 I, vec2 N)", "vec2 I|vec2 N"),
    ("vec3 reflect(vec3 I, vec3 N)", "vec3 I|vec3 N"),
    ("vec4 reflect(vec4 I, vec4 N)", "vec4 I|vec4 N"),
    ("double reflect(double I, double N)", "double I|double N"),
    ("dvec2 reflect(dvec2 I, dvec2 N)", "dvec2 I|dvec2 N"),
    ("dvec3 reflect(dvec3 I, dvec3 N)", "dvec3 I|dvec3 N"),
    ("dvec4 reflect(dvec4 I, dvec4 N)", "dvec4 I|dvec4 N"),
    ("float refract(float I, float N, float eta)", "float I|float N|float eta"),
    ("vec2 refract(vec2 I, vec2 N, float eta)", "vec2 I|vec2 N|float eta"),
    ("vec3 refract(vec3 I, vec3 N, float eta)", "vec3 I|vec3 N|float eta"),
    ("vec4 refract(vec4 I, vec4 N, float eta)", "vec4 I|vec4 N|float eta"),
    ("double refract(double I, double N, float eta)", "double I|double N|float eta"),
    ("dvec2 refract(dvec2 I, dvec2 N, float eta)", "dvec2 I|dvec2 N|float eta"),
    ("dvec3 refract(dvec3 I, dvec3 N, float eta)", "dvec3 I|dvec3 N|float eta"),
    ("dvec4 refract(dvec4 I, dvec4 N, float eta)", "dvec4 I|dvec4 N|float eta"),
    ("float clamp(float x, float minVal, float maxVal)", "float x|float minVal|float maxVal"),
    ("vec2 clamp(vec2 x, vec2 minVal, vec2 maxVal)", "vec2 x|vec2 minVal|vec2 maxVal"),
    ("vec3 clamp(vec3 x, vec3 minVal, vec3 maxVal)", "vec3 x|vec3 minVal|vec3 maxVal"),
    ("vec4 clamp(vec4 x, vec4 minVal, vec4 maxVal)", "vec4 x|vec4 minVal|vec4 maxVal"),
    ("vec2 clamp(vec2 x, float minVal, float maxVal)", "vec2 x|float minVal|float maxVal"),
    ("vec3 clamp(vec3 x, float minVal, float maxVal)", "vec3 x|float minVal|float maxVal"),
    ("vec4 clamp(vec4 x, float minVal, float maxVal)", "vec4 x|float minVal|float maxVal"),
    ("int clamp(int x, int minVal, int maxVal)", "int x|int minVal|int maxVal"),
    ("uint clamp(uint x, uint minVal, uint maxVal)", "uint x|uint minVal|uint maxVal"),
    ("float mix(float x, float y, float a)", "float x|float y|float a"),
    ("vec2 mix(vec2 x, vec2 y, vec2 a)", "vec2 x|vec2 y|vec2 a"),
    ("vec3 mix(vec3 x, vec3 y, vec3 a)", "vec3 x|vec3 y|vec3 a"),
    ("vec4 mix(vec4 x, vec4 y, vec4 a)", "vec4 x|vec4 y|vec4 a"),
    ("vec2 mix(vec2 x, vec2 y, float a)", "vec2 x|vec2 y|float a"),
    ("vec3 mix(vec3 x, vec3 y, float a)", "vec3 x|vec3 y|float a"),
    ("vec4 mix(vec4 x, vec4 y, float a)", "vec4 x|vec4 y|float a"),
    ("genType mix(genType x, genType y, genBType a)", "genType x|genType y|genBType a"),
    ("float step(float edge, float x)", "float edge|float x"),
    ("vec2 step(vec2 edge, vec2 x)", "vec2 edge|vec2 x"),
    ("vec3 step(vec3 edge, vec3 x)", "vec3 edge|vec3 x"),
    ("vec4 step(vec4 edge, vec4 x)", "vec4 edge|vec4 x"),
    ("vec2 step(float edge, vec2 x)", "float edge|vec2 x"),
    ("vec3 step(float edge, vec3 x)", "float edge|vec3 x"),
    ("vec4 step(float edge, vec4 x)", "float edge|vec4 x"),
    ("float smoothstep(float edge0, float edge1, float x)", "float edge0|float edge1|float x"),
    ("vec2 smoothstep(vec2 edge0, vec2 edge1, vec2 x)", "vec2 edge0|vec2 edge1|vec2 x"),
    ("vec3 smoothstep(vec3 edge0, vec3 edge1, vec3 x)", "vec3 edge0|vec3 edge1|vec3 x"),
    ("vec4 smoothstep(vec4 edge0, vec4 edge1, vec4 x)", "vec4 edge0|vec4 edge1|vec4 x"),
    ("vec2 smoothstep(float edge0, float edge1, vec2 x)", "float edge0|float edge1|vec2 x"),
    ("vec3 smoothstep(float edge0, float edge1, vec3 x)", "float edge0|float edge1|vec3 x"),
    ("vec4 smoothstep(float edge0, float edge1, vec4 x)", "float edge0|float edge1|vec4 x"),
    ("float abs(float x)", "float x"),
    ("vec2 abs(vec2 x)", "vec2 x"),
    ("vec3 abs(vec3 x)", "vec3 x"),
    ("vec4 abs(vec4 x)", "vec4 x"),
    ("int abs(int x)", "int x"),
    ("ivec2 abs(ivec2 x)", "ivec2 x"),
    ("ivec3 abs(ivec3 x)", "ivec3 x"),
    ("ivec4 abs(ivec4 x)", "ivec4 x"),
    ("float sign(float x)", "float x"),
    ("vec2 sign(vec2 x)", "vec2 x"),
    ("vec3 sign(vec3 x)", "vec3 x"),
    ("vec4 sign(vec4 x)", "vec4 x"),
    ("int sign(int x)", "int x"),
    ("float floor(float x)", "float x"),
    ("vec2 floor(vec2 x)", "vec2 x"),
    ("vec3 floor(vec3 x)", "vec3 x"),
    ("vec4 floor(vec4 x)", "vec4 x"),
    ("float ceil(float x)", "float x"),
    ("vec2 ceil(vec2 x)", "vec2 x"),
    ("vec3 ceil(vec3 x)", "vec3 x"),
    ("vec4 ceil(vec4 x)", "vec4 x"),
    ("float fract(float x)", "float x"),
    ("vec2 fract(vec2 x)", "vec2 x"),
    ("vec3 fract(vec3 x)", "vec3 x"),
    ("vec4 fract(vec4 x)", "vec4 x"),
    ("float mod(float x, float y)", "float x|float y"),
    ("vec2 mod(vec2 x, vec2 y)", "vec2 x|vec2 y"),
    ("vec3 mod(vec3 x, vec3 y)", "vec3 x|vec3 y"),
    ("vec4 mod(vec4 x, vec4 y)", "vec4 x|vec4 y"),
    ("vec2 mod(vec2 x, float y)", "vec2 x|float y"),
    ("vec3 mod(vec3 x, float y)", "vec3 x|float y"),
    ("vec4 mod(vec4 x, float y)", "vec4 x|float y"),
    ("float min(float x, float y)", "float x|float y"),
    ("vec2 min(vec2 x, vec2 y)", "vec2 x|vec2 y"),
    ("vec3 min(vec3 x, vec3 y)", "vec3 x|vec3 y"),
    ("vec4 min(vec4 x, vec4 y)", "vec4 x|vec4 y"),
    ("vec2 min(vec2 x, float y)", "vec2 x|float y"),
    ("vec3 min(vec3 x, float y)", "vec3 x|float y"),
    ("vec4 min(vec4 x, float y)", "vec4 x|float y"),
    ("int min(int x, int y)", "int x|int y"),
    ("uint min(uint x, uint y)", "uint x|uint y"),
    ("float max(float x, float y)", "float x|float y"),
    ("vec2 max(vec2 x, vec2 y)", "vec2 x|vec2 y"),
    ("vec3 max(vec3 x, vec3 y)", "vec3 x|vec3 y"),
    ("vec4 max(vec4 x, vec4 y)", "vec4 x|vec4 y"),
    ("vec2 max(vec2 x, float y)", "vec2 x|float y"),
    ("vec3 max(vec3 x, float y)", "vec3 x|float y"),
    ("vec4 max(vec4 x, float y)", "vec4 x|float y"),
    ("int max(int x, int y)", "int x|int y"),
    ("uint max(uint x, uint y)", "uint x|uint y"),
    ("float sin(float angle)", "float angle"),
    ("vec2 sin(vec2 angle)", "vec2 angle"),
    ("vec3 sin(vec3 angle)", "vec3 angle"),
    ("vec4 sin(vec4 angle)", "vec4 angle"),
    ("float cos(float angle)", "float angle"),
    ("vec2 cos(vec2 angle)", "vec2 angle"),
    ("vec3 cos(vec3 angle)", "vec3 angle"),
    ("vec4 cos(vec4 angle)", "vec4 angle"),
    ("float tan(float angle)", "float angle"),
    ("vec2 tan(vec2 angle)", "vec2 angle"),
    ("vec3 tan(vec3 angle)", "vec3 angle"),
    ("vec4 tan(vec4 angle)", "vec4 angle"),
    ("float asin(float x)", "float x"),
    ("vec2 asin(vec2 x)", "vec2 x"),
    ("vec3 asin(vec3 x)", "vec3 x"),
    ("vec4 asin(vec4 x)", "vec4 x"),
    ("float acos(float x)", "float x"),
    ("vec2 acos(vec2 x)", "vec2 x"),
    ("vec3 acos(vec3 x)", "vec3 x"),
    ("vec4 acos(vec4 x)", "vec4 x"),
    ("float atan(float y, float x)", "float y|float x"),
    ("vec2 atan(vec2 y, vec2 x)", "vec2 y|vec2 x"),
    ("vec3 atan(vec3 y, vec3 x)", "vec3 y|vec3 x"),
    ("vec4 atan(vec4 y, vec4 x)", "vec4 y|vec4 x"),
    ("float atan(float y_over_x)", "float y_over_x"),
    ("vec2 atan(vec2 y_over_x)", "vec2 y_over_x"),
    ("vec3 atan(vec3 y_over_x)", "vec3 y_over_x"),
    ("vec4 atan(vec4 y_over_x)", "vec4 y_over_x"),
    ("float pow(float x, float y)", "float x|float y"),
    ("vec2 pow(vec2 x, vec2 y)", "vec2 x|vec2 y"),
    ("vec3 pow(vec3 x, vec3 y)", "vec3 x|vec3 y"),
    ("vec4 pow(vec4 x, vec4 y)", "vec4 x|vec4 y"),
    ("float exp(float x)", "float x"),
    ("vec2 exp(vec2 x)", "vec2 x"),
    ("vec3 exp(vec3 x)", "vec3 x"),
    ("vec4 exp(vec4 x)", "vec4 x"),
    ("float log(float x)", "float x"),
    ("vec2 log(vec2 x)", "vec2 x"),
    ("vec3 log(vec3 x)", "vec3 x"),
    ("vec4 log(vec4 x)", "vec4 x"),
    ("float sqrt(float x)", "float x"),
    ("vec2 sqrt(vec2 x)", "vec2 x"),
    ("vec3 sqrt(vec3 x)", "vec3 x"),
    ("vec4 sqrt(vec4 x)", "vec4 x"),
    ("float inversesqrt(float x)", "float x"),
    ("vec2 inversesqrt(vec2 x)", "vec2 x"),
    ("vec3 inversesqrt(vec3 x)", "vec3 x"),
    ("vec4 inversesqrt(vec4 x)", "vec4 x"),
    ("mat2 transpose(mat2 m)", "mat2 m"),
    ("mat3 transpose(mat3 m)", "mat3 m"),
    ("mat4 transpose(mat4 m)", "mat4 m"),
    ("mat2x3 transpose(mat3x2 m)", "mat3x2 m"),
    ("mat3x2 transpose(mat2x3 m)", "mat2x3 m"),
    ("mat2x4 transpose(mat4x2 m)", "mat4x2 m"),
    ("mat4x2 transpose(mat2x4 m)", "mat2x4 m"),
    ("mat3x4 transpose(mat4x3 m)", "mat4x3 m"),
    ("mat4x3 transpose(mat3x4 m)", "mat3x4 m"),
    ("float determinant(mat2 m)", "mat2 m"),
    ("float determinant(mat3 m)", "mat3 m"),
    ("float determinant(mat4 m)", "mat4 m"),
    ("double determinant(dmat2 m)", "dmat2 m"),
    ("double determinant(dmat3 m)", "dmat3 m"),
    ("double determinant(dmat4 m)", "dmat4 m"),
    ("mat2 inverse(mat2 m)", "mat2 m"),
    ("mat3 inverse(mat3 m)", "mat3 m"),
    ("mat4 inverse(mat4 m)", "mat4 m"),
    ("dmat2 inverse(dmat2 m)", "dmat2 m"),
    ("dmat3 inverse(dmat3 m)", "dmat3 m"),
    ("dmat4 inverse(dmat4 m)", "dmat4 m"),
    ("vec4 texture(sampler1D sampler, float P, [float bias])", "sampler1D sampler|float P|[float bias]"),
    ("vec4 texture(sampler2D sampler, vec2 P, [float bias])", "sampler2D sampler|vec2 P|[float bias]"),
    ("vec4 texture(sampler3D sampler, vec3 P, [float bias])", "sampler3D sampler|vec3 P|[float bias]"),
    ("vec4 texture(samplerCube sampler, vec3 P, [float bias])", "samplerCube sampler|vec3 P|[float bias]"),
    ("float texture(sampler1DShadow sampler, vec3 P, [float bias])", "sampler1DShadow sampler|vec3 P|[float bias]"),
    ("float texture(sampler2DShadow sampler, vec3 P, [float bias])", "sampler2DShadow sampler|vec3 P|[float bias]"),
    ("float texture(samplerCubeShadow sampler, vec4 P, [float bias])", "samplerCubeShadow sampler|vec4 P|[float bias]"),
    ("vec4 texture(sampler2DArray sampler, vec3 P, [float bias])", "sampler2DArray sampler|vec3 P|[float bias]"),
    ("vec4 textureLod(sampler1D sampler, float P, float lod)", "sampler1D sampler|float P|float lod"),
    ("vec4 textureLod(sampler2D sampler, vec2 P, float lod)", "sampler2D sampler|vec2 P|float lod"),
    ("vec4 textureLod(sampler3D sampler, vec3 P, float lod)", "sampler3D sampler|vec3 P|float lod"),
    ("vec4 textureLod(samplerCube sampler, vec3 P, float lod)", "samplerCube sampler|vec3 P|float lod"),
    ("vec4 textureLod(sampler2DArray sampler, vec3 P, float lod)", "sampler2DArray sampler|vec3 P|float lod"),
    ("vec4 texelFetch(sampler1D sampler, int P, int lod)", "sampler1D sampler|int P|int lod"),
    ("vec4 texelFetch(sampler2D sampler, ivec2 P, int lod)", "sampler2D sampler|ivec2 P|int lod"),
    ("vec4 texelFetch(sampler3D sampler, ivec3 P, int lod)", "sampler3D sampler|ivec3 P|int lod"),
    ("vec4 texelFetch(sampler2DMS sampler, ivec2 P, int sample)", "sampler2DMS sampler|ivec2 P|int sample"),
    ("vec4 texelFetch(samplerBuffer sampler, int P)", "samplerBuffer sampler|int P"),
    ("int textureSize(sampler1D sampler, int lod)", "sampler1D sampler|int lod"),
    ("ivec2 textureSize(sampler2D sampler, int lod)", "sampler2D sampler|int lod"),
    ("ivec3 textureSize(sampler3D sampler, int lod)", "sampler3D sampler|int lod"),
    ("ivec2 textureSize(samplerCube sampler, int lod)", "samplerCube sampler|int lod"),
    ("ivec3 textureSize(sampler2DArray sampler, int lod)", "sampler2DArray sampler|int lod"),
    ("ivec2 textureSize(sampler2DMS sampler)", "sampler2DMS sampler"),
    ("int textureSize(samplerBuffer sampler)", "samplerBuffer sampler"),
    ("float dFdx(float p)", "float p"),
    ("vec2 dFdx(vec2 p)", "vec2 p"),
    ("vec3 dFdx(vec3 p)", "vec3 p"),
    ("vec4 dFdx(vec4 p)", "vec4 p"),
    ("float dFdy(float p)", "float p"),
    ("vec2 dFdy(vec2 p)", "vec2 p"),
    ("vec3 dFdy(vec3 p)", "vec3 p"),
    ("vec4 dFdy(vec4 p)", "vec4 p"),
    ("float fwidth(float p)", "float p"),
    ("vec2 fwidth(vec2 p)", "vec2 p"),
    ("vec3 fwidth(vec3 p)", "vec3 p"),
    ("vec4 fwidth(vec4 p)", "vec4 p"),
    ("void barrier()", ""),
    ("void memoryBarrier()", ""),
    ("void memoryBarrierShared()", ""),
    ("void groupMemoryBarrier()", ""),
    ("mat2 transpose(mat2 m)", "mat2 m"),
    ("mat3 transpose(mat3 m)", "mat3 m"),
    ("mat4 transpose(mat4 m)", "mat4 m"),
    ("mat2x3 transpose(mat3x2 m)", "mat3x2 m"),
    ("mat3x2 transpose(mat2x3 m)", "mat2x3 m"),
    ("mat2x4 transpose(mat4x2 m)", "mat4x2 m"),
    ("mat4x2 transpose(mat2x4 m)", "mat2x4 m"),
    ("mat3x4 transpose(mat4x3 m)", "mat4x3 m"),
    ("mat4x3 transpose(mat3x4 m)", "mat3x4 m"),
    ("dmat2 transpose(dmat2 m)", "dmat2 m"),
    ("dmat3 transpose(dmat3 m)", "dmat3 m"),
    ("dmat4 transpose(dmat4 m)", "dmat4 m"),
    ("mat2 inverse(mat2 m)", "mat2 m"),
    ("mat3 inverse(mat3 m)", "mat3 m"),
    ("mat4 inverse(mat4 m)", "mat4 m"),
    ("dmat2 inverse(dmat2 m)", "dmat2 m"),
    ("dmat3 inverse(dmat3 m)", "dmat3 m"),
    ("dmat4 inverse(dmat4 m)", "dmat4 m"),
    ("float determinant(mat2 m)", "mat2 m"),
    ("float determinant(mat3 m)", "mat3 m"),
    ("float determinant(mat4 m)", "mat4 m"),
    ("double determinant(dmat2 m)", "dmat2 m"),
    ("double determinant(dmat3 m)", "dmat3 m"),
    ("double determinant(dmat4 m)", "dmat4 m"),
    ("mat2 matrixCompMult(mat2 x, mat2 y)", "mat2 x|mat2 y"),
    ("mat3 matrixCompMult(mat3 x, mat3 y)", "mat3 x|mat3 y"),
    ("mat4 matrixCompMult(mat4 x, mat4 y)", "mat4 x|mat4 y"),
    ("mat2 outerProduct(vec2 c, vec2 r)", "vec2 c|vec2 r"),
    ("mat3 outerProduct(vec3 c, vec3 r)", "vec3 c|vec3 r"),
    ("mat4 outerProduct(vec4 c, vec4 r)", "vec4 c|vec4 r"),
    ("bvec2 lessThan(vec2 x, vec2 y)", "vec2 x|vec2 y"),
    ("bvec3 lessThan(vec3 x, vec3 y)", "vec3 x|vec3 y"),
    ("bvec4 lessThan(vec4 x, vec4 y)", "vec4 x|vec4 y"),
    ("bvec2 lessThan(ivec2 x, ivec2 y)", "ivec2 x|ivec2 y"),
    ("bvec3 lessThan(ivec3 x, ivec3 y)", "ivec3 x|ivec3 y"),
    ("bvec4 lessThan(ivec4 x, ivec4 y)", "ivec4 x|ivec4 y"),
    ("bvec2 lessThan(uvec2 x, uvec2 y)", "uvec2 x|uvec2 y"),
    ("bvec3 lessThan(uvec3 x, uvec3 y)", "uvec3 x|uvec3 y"),
    ("bvec4 lessThan(uvec4 x, uvec4 y)", "uvec4 x|uvec4 y"),
    ("bvec2 lessThanEqual(vec2 x, vec2 y)", "vec2 x|vec2 y"),
    ("bvec3 lessThanEqual(vec3 x, vec3 y)", "vec3 x|vec3 y"),
    ("bvec4 lessThanEqual(vec4 x, vec4 y)", "vec4 x|vec4 y"),
    ("bvec2 lessThanEqual(ivec2 x, ivec2 y)", "ivec2 x|ivec2 y"),
    ("bvec3 lessThanEqual(ivec3 x, ivec3 y)", "ivec3 x|ivec3 y"),
    ("bvec4 lessThanEqual(ivec4 x, ivec4 y)", "ivec4 x|ivec4 y"),
    ("bvec2 greaterThan(vec2 x, vec2 y)", "vec2 x|vec2 y"),
    ("bvec3 greaterThan(vec3 x, vec3 y)", "vec3 x|vec3 y"),
    ("bvec4 greaterThan(vec4 x, vec4 y)", "vec4 x|vec4 y"),
    ("bvec2 greaterThan(ivec2 x, ivec2 y)", "ivec2 x|ivec2 y"),
    ("bvec3 greaterThan(ivec3 x, ivec3 y)", "ivec3 x|ivec3 y"),
    ("bvec4 greaterThan(ivec4 x, ivec4 y)", "ivec4 x|ivec4 y"),
    ("bvec2 greaterThanEqual(vec2 x, vec2 y)", "vec2 x|vec2 y"),
    ("bvec3 greaterThanEqual(vec3 x, vec3 y)", "vec3 x|vec3 y"),
    ("bvec4 greaterThanEqual(vec4 x, vec4 y)", "vec4 x|vec4 y"),
    ("bvec2 greaterThanEqual(ivec2 x, ivec2 y)", "ivec2 x|ivec2 y"),
    ("bvec3 greaterThanEqual(ivec3 x, ivec3 y)", "ivec3 x|ivec3 y"),
    ("bvec4 greaterThanEqual(ivec4 x, ivec4 y)", "ivec4 x|ivec4 y"),
    ("bvec2 equal(vec2 x, vec2 y)", "vec2 x|vec2 y"),
    ("bvec3 equal(vec3 x, vec3 y)", "vec3 x|vec3 y"),
    ("bvec4 equal(vec4 x, vec4 y)", "vec4 x|vec4 y"),
    ("bvec2 equal(ivec2 x, ivec2 y)", "ivec2 x|ivec2 y"),
    ("bvec3 equal(ivec3 x, ivec3 y)", "ivec3 x|ivec3 y"),
    ("bvec4 equal(ivec4 x, ivec4 y)", "ivec4 x|ivec4 y"),
    ("bvec2 equal(bvec2 x, bvec2 y)", "bvec2 x|bvec2 y"),
    ("bvec3 equal(bvec3 x, bvec3 y)", "bvec3 x|bvec3 y"),
    ("bvec4 equal(bvec4 x, bvec4 y)", "bvec4 x|bvec4 y"),
    ("bvec2 notEqual(vec2 x, vec2 y)", "vec2 x|vec2 y"),
    ("bvec3 notEqual(vec3 x, vec3 y)", "vec3 x|vec3 y"),
    ("bvec4 notEqual(vec4 x, vec4 y)", "vec4 x|vec4 y"),
    ("bvec2 notEqual(ivec2 x, ivec2 y)", "ivec2 x|ivec2 y"),
    ("bvec3 notEqual(ivec3 x, ivec3 y)", "ivec3 x|ivec3 y"),
    ("bvec4 notEqual(ivec4 x, ivec4 y)", "ivec4 x|ivec4 y"),
    ("bvec2 notEqual(bvec2 x, bvec2 y)", "bvec2 x|bvec2 y"),
    ("bvec3 notEqual(bvec3 x, bvec3 y)", "bvec3 x|bvec3 y"),
    ("bvec4 notEqual(bvec4 x, bvec4 y)", "bvec4 x|bvec4 y"),
    ("bool any(bvec2 x)", "bvec2 x"),
    ("bool any(bvec3 x)", "bvec3 x"),
    ("bool any(bvec4 x)", "bvec4 x"),
    ("bool all(bvec2 x)", "bvec2 x"),
    ("bool all(bvec3 x)", "bvec3 x"),
    ("bool all(bvec4 x)", "bvec4 x"),
    ("bvec2 not(bvec2 x)", "bvec2 x"),
    ("bvec3 not(bvec3 x)", "bvec3 x"),
    ("bvec4 not(bvec4 x)", "bvec4 x"),
    ("float fma(float a, float b, float c)", "float a|float b|float c"),
    ("vec2 fma(vec2 a, vec2 b, vec2 c)", "vec2 a|vec2 b|vec2 c"),
    ("vec3 fma(vec3 a, vec3 b, vec3 c)", "vec3 a|vec3 b|vec3 c"),
    ("vec4 fma(vec4 a, vec4 b, vec4 c)", "vec4 a|vec4 b|vec4 c"),
    ("int bitfieldExtract(int value, int offset, int bits)", "int value|int offset|int bits"),
    ("uint bitfieldExtract(uint value, int offset, int bits)", "uint value|int offset|int bits"),
    ("int bitfieldInsert(int base, int insert, int offset, int bits)", "int base|int insert|int offset|int bits"),
    ("uint bitfieldInsert(uint base, uint insert, int offset, int bits)", "uint base|uint insert|int offset|int bits"),
    ("int bitfieldReverse(int value)", "int value"),
    ("uint bitfieldReverse(uint value)", "uint value"),
    ("int bitCount(int value)", "int value"),
    ("int bitCount(uint value)", "uint value"),
    ("int findLSB(int value)", "int value"),
    ("int findLSB(uint value)", "uint value"),
    ("int findMSB(int value)", "int value"),
    ("int findMSB(uint value)", "uint value"),
    ("int floatBitsToInt(float value)", "float value"),
    ("ivec2 floatBitsToInt(vec2 value)", "vec2 value"),
    ("ivec3 floatBitsToInt(vec3 value)", "vec3 value"),
    ("ivec4 floatBitsToInt(vec4 value)", "vec4 value"),
    ("uint floatBitsToUint(float value)", "float value"),
    ("uvec2 floatBitsToUint(vec2 value)", "vec2 value"),
    ("uvec3 floatBitsToUint(vec3 value)", "vec3 value"),
    ("uvec4 floatBitsToUint(vec4 value)", "vec4 value"),
    ("float intBitsToFloat(int value)", "int value"),
    ("vec2 intBitsToFloat(ivec2 value)", "vec2 value"),
    ("vec3 intBitsToFloat(ivec3 value)", "vec3 value"),
    ("vec4 intBitsToFloat(ivec4 value)", "vec4 value"),
    ("float uintBitsToFloat(uint value)", "uint value"),
    ("vec2 uintBitsToFloat(uvec2 value)", "uvec2 value"),
    ("vec3 uintBitsToFloat(uvec3 value)", "uvec3 value"),
    ("vec4 uintBitsToFloat(uvec4 value)", "uvec4 value"),
    ("uint atomicAdd(inout uint mem, uint data)", "inout uint mem|uint data"),
    ("int atomicAdd(inout int mem, int data)", "inout int mem|int data"),
];

/// The built-in types: name, detail, description, and whether they have a constructor.
pub const BUILTIN_TYPES: [(&'static str, &'static str, &'static str, bool); 88] = [
    ("float", "float", "### `float`\n*GLSL 4.6*\n\nIEEE 754 32-bit single-precision floating-point scalar type.", true),
    ("double", "double", "### `double`\n*GLSL 4.6*\n\nIEEE 754 64-bit double-precision floating-point scalar type.", true),
    ("int", "int", "### `int`\n*GLSL 4.6*\n\nSigned 32-bit two's complement integer scalar type.", true),
    ("uint", "uint", "### `uint`\n*GLSL 4.6*\n\nUnsigned 32-bit integer scalar type.", true),
    ("bool", "bool", "### `bool`\n*GLSL 4.6*\n\nBoolean scalar type (`true` or `false`).", true),
    ("void", "void", "### `void`\n*GLSL 4.6*\n\nIndicates that a function does not return a value.", false),
    ("vec2", "vec2", "### `vec2`\n*GLSL 4.6*\n\n2-component 32-bit floating-point vector `(x, y)`.", true),
    ("vec3", "vec3", "### `vec3`\n*GLSL 4.6*\n\n3-component 32-bit floating-point vector `(x, y, z)`.", true),
    ("vec4", "vec4", "### `vec4`\n*GLSL 4.6*\n\n4-component 32-bit floating-point vector `(x, y, z, w)`.", true),
    ("dvec2", "dvec2", "### `dvec2`\n*GLSL 4.6*\n\n2-component 64-bit double-precision floating-point vector.", true),
    ("dvec3", "dvec3", "### `dvec3`\n*GLSL 4.6*\n\n3-component 64-bit double-precision floating-point vector.", true),
    ("dvec4", "dvec4", "### `dvec4`\n*GLSL 4.6*\n\n4-component 64-bit double-precision floating-point vector.", true),
    ("ivec2", "ivec2", "### `ivec2`\n*GLSL 4.6*\n\n2-component 32-bit signed integer vector.", true),
    ("ivec3", "ivec3", "### `ivec3`\n*GLSL 4.6*\n\n3-component 32-bit signed integer vector.", true),
    ("ivec4", "ivec4", "### `ivec4`\n*GLSL 4.6*\n\n4-component 32-bit signed integer vector.", true),
    ("uvec2", "uvec2", "### `uvec2`\n*GLSL 4.6*\n\n2-component 32-bit unsigned integer vector.", true),
    ("uvec3", "uvec3", "### `uvec3`\n*GLSL 4.6*\n\n3-component 32-bit unsigned integer vector.", true),
    ("uvec4", "uvec4", "### `uvec4`\n*GLSL 4.6*\n\n4-component 32-bit unsigned integer vector.", true),
    ("bvec2", "bvec2", "### `bvec2`\n*GLSL 4.6*\n\n2-component boolean vector.", true),
    ("bvec3", "bvec3", "### `bvec3`\n*GLSL 4.6*\n\n3-component boolean vector.", true),
    ("bvec4", "bvec4", "### `bvec4`\n*GLSL 4.6*\n\n4-component boolean vector.", true),
    ("mat2", "mat2", "### `mat2`\n*GLSL 4.6*\n\n2x2 single-precision floating-point matrix.", true),
    ("mat3", "mat3", "### `mat3`\n*GLSL 4.6*\n\n3x3 single-precision floating-point matrix.", true),
    ("mat4", "mat4", "### `mat4`\n*GLSL 4.6*\n\n4x4 single-precision floating-point matrix.", true),
    ("mat2x2", "mat2x2", "### `mat2x2`\n*GLSL 4.6*\n\n2 columns x 2 rows floating-point matrix.", true),
    ("mat2x3", "mat2x3", "### `mat2x3`\n*GLSL 4.6*\n\n2 columns x 3 rows floating-point matrix.", true),
    ("mat2x4", "mat2x4", "### `mat2x4`\n*GLSL 4.6*\n\n2 columns x 4 rows floating-point matrix.", true),
    ("mat3x2", "mat3x2", "### `mat3x2`\n*GLSL 4.6*\n\n3 columns x 2 rows floating-point matrix.", true),
    ("mat3x3", "mat3x3", "### `mat3x3`\n*GLSL 4.6*\n\n3 columns x 3 rows floating-point matrix.", true),
    ("mat3x4", "mat3x4", "### `mat3x4`\n*GLSL 4.6*\n\n3 columns x 4 rows floating-point matrix.", true),
    ("mat4x2", "mat4x2", "### `mat4x2`\n*GLSL 4.6*\n\n4 columns x 2 rows floating-point matrix.", true),
    ("mat4x3", "mat4x3", "### `mat4x3`\n*GLSL 4.6*\n\n4 columns x 3 rows floating-point matrix.", true),
    ("mat4x4", "mat4x4", "### `mat4x4`\n*GLSL 4.6*\n\n4 columns x 4 rows floating-point matrix.", true),
    ("dmat2", "dmat2", "### `dmat2`\n*GLSL 4.6*\n\n2x2 double-precision floating-point matrix.", true),
    ("dmat3", "dmat3", "### `dmat3`\n*GLSL 4.6*\n\n3x3 double-precision floating-point matrix.", true),
    ("dmat4", "dmat4", "### `dmat4`\n*GLSL 4.6*\n\n4x4 double-precision floating-point matrix.", true),
    ("dmat2x2", "dmat2x2", "### `dmat2x2`\n*GLSL 4.6*\n\n2 columns x 2 rows double-precision matrix.", true),
    ("dmat2x3", "dmat2x3", "### `dmat2x3`\n*GLSL 4.6*\n\n2 columns x 3 rows double-precision matrix.", true),
    ("dmat2x4", "dmat2x4", "### `dmat2x4`\n*GLSL 4.6*\n\n2 columns x 4 rows double-precision matrix.", true),
    ("dmat3x2", "dmat3x2", "### `dmat3x2`\n*GLSL 4.6*\n\n3 columns x 2 rows double-precision matrix.", true),
    ("dmat3x3", "dmat3x3", "### `dmat3x3`\n*GLSL 4.6*\n\n3 columns x 3 rows double-precision matrix.", true),
    ("dmat3x4", "dmat3x4", "### `dmat3x4`\n*GLSL 4.6*\n\n3 columns x 4 rows double-precision matrix.", true),
    ("dmat4x2", "dmat4x2", "### `dmat4x2`\n*GLSL 4.6*\n\n4 columns x 2 rows double-precision matrix.", true),
    ("dmat4x3", "dmat4x3", "### `dmat4x3`\n*GLSL 4.6*\n\n4 columns x 3 rows double-precision matrix.", true),
    ("dmat4x4", "dmat4x4", "### `dmat4x4`\n*GLSL 4.6*\n\n4 columns x 4 rows double-precision matrix.", true),
    ("sampler1D", "sampler1D", "### `sampler1D`\n*GLSL 4.6*\n\nHandle for 1D texture sampling.", false),
    ("sampler2D", "sampler2D", "### `sampler2D`\n*GLSL 4.6*\n\nHandle for 2D texture sampling.", false),
    ("sampler3D", "sampler3D", "### `sampler3D`\n*GLSL 4.6*\n\nHandle for 3D texture sampling.", false),
    ("samplerCube", "samplerCube", "### `samplerCube`\n*GLSL 4.6*\n\nHandle for cubemap texture sampling.", false),
    ("sampler2DShadow", "sampler2DShadow", "### `sampler2DShadow`\n*GLSL 4.6*\n\nHandle for 2D depth texture sampling with comparison.", false),
    ("samplerCubeShadow", "samplerCubeShadow", "### `samplerCubeShadow`\n*GLSL 4.6*\n\nHandle for cubemap depth texture sampling with comparison.", false),
    ("sampler2DArray", "sampler2DArray", "### `sampler2DArray`\n*GLSL 4.6*\n\nHandle for 2D array texture sampling.", false),
    ("sampler2DArrayShadow", "sampler2DArrayShadow", "### `sampler2DArrayShadow`\n*GLSL 4.6*\n\nHandle for 2D array depth texture sampling with comparison.", false),
    ("sampler1DArray", "sampler1DArray", "### `sampler1DArray`\n*GLSL 4.6*\n\nHandle for 1D array texture sampling.", false),
    ("sampler1DArrayShadow", "sampler1DArrayShadow", "### `sampler1DArrayShadow`\n*GLSL 4.6*\n\nHandle for 1D array depth texture sampling with comparison.", false),
    ("sampler2DMS", "sampler2DMS", "### `sampler2DMS`\n*GLSL 4.6*\n\nHandle for multisample 2D texture fetching.", false),
    ("sampler2DMSArray", "sampler2DMSArray", "### `sampler2DMSArray`\n*GLSL 4.6*\n\nHandle for multisample 2D array texture fetching.", false),
    ("samplerBuffer", "samplerBuffer", "### `samplerBuffer`\n*GLSL 4.6*\n\nHandle for buffer texture fetching.", false),
    ("sampler2DRect", "sampler2DRect", "### `sampler2DRect`\n*GLSL 4.6*\n\nHandle for rectangular (unnormalized) 2D texture sampling.", false),
    ("sampler2DRectShadow", "sampler2DRectShadow", "### `sampler2DRectShadow`\n*GLSL 4.6*\n\nHandle for rectangular 2D depth texture sampling with comparison.", false),
    ("isampler1D", "isampler1D", "### `isampler1D`\n*GLSL 4.6*\n\nHandle for integer 1D texture sampling.", false),
    ("isampler2D", "isampler2D", "### `isampler2D`\n*GLSL 4.6*\n\nHandle for integer 2D texture sampling.", false),
    ("isampler3D", "isampler3D", "### `isampler3D`\n*GLSL 4.6*\n\nHandle for integer 3D texture sampling.", false),
    ("isamplerCube", "isamplerCube", "### `isamplerCube`\n*GLSL 4.6*\n\nHandle for integer cubemap texture sampling.", false),
    ("isampler2DArray", "isampler2DArray", "### `isampler2DArray`\n*GLSL 4.6*\n\nHandle for integer 2D array texture sampling.", false),
    ("isampler2DMS", "isampler2DMS", "### `isampler2DMS`\n*GLSL 4.6*\n\nHandle for integer multisample 2D texture fetching.", false),
    ("isampler2DMSArray", "isampler2DMSArray", "### `isampler2DMSArray`\n*GLSL 4.6*\n\nHandle for integer multisample 2D array texture fetching.", false),
    ("isamplerBuffer", "isamplerBuffer", "### `isamplerBuffer`\n*GLSL 4.6*\n\nHandle for integer buffer texture fetching.", false),
    ("isampler2DRect", "isampler2DRect", "### `isampler2DRect`\n*GLSL 4.6*\n\nHandle for integer rectangular 2D texture sampling.", false),
    ("usampler1D", "usampler1D", "### `usampler1D`\n*GLSL 4.6*\n\nHandle for unsigned integer 1D texture sampling.", false),
    ("usampler2D", "usampler2D", "### `usampler2D`\n*GLSL 4.6*\n\nHandle for unsigned integer 2D texture sampling.", false),
    ("usampler3D", "usampler3D", "### `usampler3D`\n*GLSL 4.6*\n\nHandle for unsigned integer 3D texture sampling.", false),
    ("usamplerCube", "usamplerCube", "### `usamplerCube`\n*GLSL 4.6*\n\nHandle for unsigned integer cubemap texture sampling.", false),
    ("usampler2DArray", "usampler2DArray", "### `usampler2DArray`\n*GLSL 4.6*\n\nHandle for unsigned integer 2D array texture sampling.", false),
    ("usampler2DMS", "usampler2DMS", "### `usampler2DMS`\n*GLSL 4.6*\n\nHandle for unsigned integer multisample 2D texture fetching.", false),
    ("usampler2DMSArray", "usampler2DMSArray", "### `usampler2DMSArray`\n*GLSL 4.6*\n\nHandle for unsigned integer multisample 2D array texture fetching.", false),
    ("usamplerBuffer", "usamplerBuffer", "### `usamplerBuffer`\n*GLSL 4.6*\n\nHandle for unsigned integer buffer texture fetching.", false),
    ("usampler2DRect", "usampler2DRect", "### `usampler2DRect`\n*GLSL 4.6*\n\nHandle for unsigned integer rectangular 2D texture sampling.", false),
    ("image1D", "image1D", "### `image1D`\n*GLSL 4.6*\n\nHandle for 1D image load, store, and atomic operations.", false),
    ("image2D", "image2D", "### `image2D`\n*GLSL 4.6*\n\nHandle for 2D image load, store, and atomic operations.", false),
    ("image3D", "image3D", "### `image3D`\n*GLSL 4.6*\n\nHandle for 3D image load, store, and atomic operations.", false),
    ("imageCube", "imageCube", "### `imageCube`\n*GLSL 4.6*\n\nHandle for cubemap image load, store, and atomic operations.", false),
    ("image2DArray", "image2DArray", "### `image2DArray`\n*GLSL 4.6*\n\nHandle for 2D array image load, store, and atomic operations.", false),
    ("imageBuffer", "imageBuffer", "### `imageBuffer`\n*GLSL 4.6*\n\nHandle for buffer image load, store, and atomic operations.", false),
    ("image2DRect", "image2DRect", "### `image2DRect`\n*GLSL 4.6*\n\nHandle for rectangular 2D image load, store, and atomic operations.", false),
    ("atomic_uint", "atomic_uint", "### `atomic_uint`\n*GLSL 4.6*\n\nUnsigned atomic counter type.", false),
    ("subpassInput", "subpassInput", "### `subpassInput`\n*Vulkan GLSL*\n\nHandle for Vulkan subpass input attachment.", false),
    ("subpassInputMS", "subpassInputMS", "### `subpassInputMS`\n*Vulkan GLSL*\n\nHandle for Vulkan multisampled subpass input attachment.", false),
];

/// The keywords and qualifiers: name, detail, description.
pub const BUILTIN_KEYWORDS: [(&'static str, &'static str, &'static str); 45] = [
    ("layout", "layout(...)", "### `layout`\n*GLSL 4.6*\n\nSpecifies layout qualifiers for variables, interfaces, bindings, or buffer blocks (e.g. `layout(location = 0)` or `layout(binding = 0)`)."),
    ("binding", "layout(binding = ...)", "### `binding`\n*GLSL 4.6*\n\nLayout qualifier specifying the binding point index of a uniform block, buffer block, or texture sampler."),
    ("location", "layout(location = ...)", "### `location`\n*GLSL 4.6*\n\nLayout qualifier specifying the input or output location index for vertex or fragment stage interface variables."),
    ("set", "layout(set = ...)", "### `set`\n*Vulkan GLSL*\n\nLayout qualifier specifying the descriptor set index for a resource (e.g. `layout(set = 0, binding = 0)`)."),
    ("push_constant", "layout(push_constant)", "### `push_constant`\n*Vulkan GLSL*\n\nLayout qualifier declaring a uniform block backed by Vulkan push constants."),
    ("offset", "layout(offset = ...)", "### `offset`\n*GLSL 4.6*\n\nLayout qualifier specifying member byte offset within a uniform or storage buffer block."),
    ("std140", "layout(std140)", "### `std140`\n*GLSL 4.6*\n\nStandard packing layout rule for uniform blocks (OpenGL Standard 140)."),
    ("std430", "layout(std430)", "### `std430`\n*GLSL 4.6*\n\nStandard packing layout rule for shader storage buffer objects (SSBO), with tighter packing for arrays and matrices."),
    ("uniform", "uniform <type> <name>", "### `uniform`\n*GLSL 4.6*\n\nDeclares a read-only variable whose value is supplied by the application and constant across all shader invocations within a draw call."),
    ("buffer", "buffer <block_name> { ... }", "### `buffer`\n*GLSL 4.6*\n\nDeclares a Shader Storage Buffer Object (SSBO) with read/write capability."),
    ("in", "in <type> <name>", "### `in`\n*GLSL 4.6*\n\nDeclares an input variable passed from the previous pipeline stage or vertex attributes."),
    ("out", "out <type> <name>", "### `out`\n*GLSL 4.6*\n\nDeclares an output variable passed to the next pipeline stage or framebuffer."),
    ("inout", "inout <type> <param>", "### `inout`\n*GLSL 4.6*\n\nFunction parameter qualifier indicating that the parameter is passed by reference (read and written)."),
    ("const", "const <type> <name>", "### `const`\n*GLSL 4.6*\n\nDeclares a compile-time constant or read-only variable."),
    ("flat", "flat in/out", "### `flat`\n*GLSL 4.6*\n\nInterpolation qualifier: no interpolation across the primitive; value from the provoking vertex is used."),
    ("smooth", "smooth in/out", "### `smooth`\n*GLSL 4.6*\n\nInterpolation qualifier: perspective-correct interpolation across primitives (default)."),
    ("noperspective", "noperspective in/out", "### `noperspective`\n*GLSL 4.6*\n\nInterpolation qualifier: linear interpolation in screen space without perspective correction."),
    ("centroid", "centroid in/out", "### `centroid`\n*GLSL 4.6*\n\nInterpolation qualifier: evaluates the variable at a point within the primitive's covered area during multisampling."),
    ("sample", "sample in/out", "### `sample`\n*GLSL 4.6*\n\nInterpolation qualifier: causes per-sample interpolation and evaluation during multisampling."),
    ("patch", "patch in/out", "### `patch`\n*GLSL 4.6*\n\nTessellation stage interface qualifier for per-patch attributes."),
    ("coherent", "coherent", "### `coherent`\n*GLSL 4.6*\n\nMemory qualifier ensuring reads and writes to buffer or image variables are visible across shader invocations."),
    ("volatile", "volatile", "### `volatile`\n*GLSL 4.6*\n\nMemory qualifier indicating that variable values may change asynchronously in memory."),
    ("restrict", "restrict", "### `restrict`\n*GLSL 4.6*\n\nMemory qualifier hinting that the underlying memory is accessed solely through this variable."),
    ("readonly", "readonly", "### `readonly`\n*GLSL 4.6*\n\nMemory qualifier specifying that a buffer or image variable can only be read."),
    ("writeonly", "writeonly", "### `writeonly`\n*GLSL 4.6*\n\nMemory qualifier specifying that a buffer or image variable can only be written."),
    ("precision", "precision <qualifier> <type>", "### `precision`\n*GLSL 4.6*\n\nSets default precision for float or integer types (`highp`, `mediump`, `lowp`)."),
    ("highp", "highp", "### `highp`\n*GLSL 4.6*\n\nHigh-precision qualifier (at least 32-bit floating point)."),
    ("mediump", "mediump", "### `mediump`\n*GLSL 4.6*\n\nMedium-precision qualifier (typically 16-bit floating point)."),
    ("lowp", "lowp", "### `lowp`\n*GLSL 4.6*\n\nLow-precision qualifier (typically 8-bit to 10-bit fixed point)."),
    ("invariant", "invariant <name>", "### `invariant`\n*GLSL 4.6*\n\nGuarantees that an output variable's value is calculated identically across different shaders."),
    ("precise", "precise <name>", "### `precise`\n*GLSL 4.6*\n\nPrevents compiler optimizations that could change arithmetic evaluation order or precision."),
    ("struct", "struct <name> { ... }", "### `struct`\n*GLSL 4.6*\n\nDefines a user-defined composite data structure."),
    ("subroutine", "subroutine", "### `subroutine`\n*GLSL 4.6*\n\nDeclares dynamic shader subroutine function types and uniform selectors."),
    ("return", "return [value];", "### `return`\n*GLSL 4.6*\n\nReturns control and an optional result value from the current function."),
    ("discard", "discard;", "### `discard`\n*GLSL 4.6*\n\nTerminates execution of the current fragment shader invocation and discards the fragment so it is not written to the framebuffer."),
    ("break", "break;", "### `break`\n*GLSL 4.6*\n\nTerminates execution of the innermost loop (`for`, `while`, `do`) or `switch` statement."),
    ("continue", "continue;", "### `continue`\n*GLSL 4.6*\n\nSkips the remainder of the current loop iteration and proceeds to the next iteration."),
    ("if", "if (condition) { ... }", "### `if`\n*GLSL 4.6*\n\nExecutes a code block if the specified boolean condition evaluates to true."),
    ("else", "else { ... }", "### `else`\n*GLSL 4.6*\n\nExecutes a code block if the preceding `if` condition evaluated to false."),
    ("for", "for (init; cond; step) { ... }", "### `for`\n*GLSL 4.6*\n\nExecutes a code block repeatedly while the condition evaluates to true."),
    ("while", "while (condition) { ... }", "### `while`\n*GLSL 4.6*\n\nExecutes a code block repeatedly as long as the condition evaluates to true."),
    ("do", "do { ... } while (condition);", "### `do ... while`\n*GLSL 4.6*\n\nExecutes a code block at least once, then repeats as long as the condition is true."),
    ("switch", "switch (expr) { ... }", "### `switch`\n*GLSL 4.6*\n\nEvaluates an integer expression and transfers control to matching `case` or `default` label."),
    ("case", "case <constant>:", "### `case`\n*GLSL 4.6*\n\nDefines a branch target within a `switch` statement."),
    ("default", "default:", "### `default`\n*GLSL 4.6*\n\nDefines the fallback branch target within a `switch` statement when no `case` matches."),
];

/// The built-in variables: name, type, stage, description.
pub const BUILTIN_VARIABLES: [(&'static str, &'static str, &'static str, &'static str); 26] = [
    ("gl_Position", "vec4", "vert", "### `gl_Position`\n*out vec4 gl_Position*\n\nHomogeneous clip-space coordinates of the current vertex output."),
    ("gl_PointSize", "float", "vert", "### `gl_PointSize`\n*out float gl_PointSize*\n\nSpecifies the rasterized diameter in pixels of point primitives."),
    ("gl_ClipDistance", "float[]", "vert", "### `gl_ClipDistance`\n*out float gl_ClipDistance[]*\n\nSpecifies clip distance values against user-defined clipping planes."),
    ("gl_CullDistance", "float[]", "vert", "### `gl_CullDistance`\n*out float gl_CullDistance[]*\n\nSpecifies cull distance values against user-defined culling planes."),
    ("gl_VertexIndex", "int", "vert", "### `gl_VertexIndex`\n*in int gl_VertexIndex*\n\nVulkan index of the vertex currently being processed."),
    ("gl_InstanceIndex", "int", "vert", "### `gl_InstanceIndex`\n*in int gl_InstanceIndex*\n\nVulkan index of the current instance in an instanced draw call."),
    ("gl_VertexID", "int", "vert", "### `gl_VertexID`\n*in int gl_VertexID*\n\nOpenGL index of the vertex currently being processed."),
    ("gl_InstanceID", "int", "vert", "### `gl_InstanceID`\n*in int gl_InstanceID*\n\nOpenGL index of the current instance in an instanced draw call."),
    ("gl_FragCoord", "vec4", "frag", "### `gl_FragCoord`\n*in vec4 gl_FragCoord*\n\nWindow-relative coordinates of the current fragment `(x, y, z, 1/w)`."),
    ("gl_FragColor", "vec4", "frag", "### `gl_FragColor`\n*out vec4 gl_FragColor*\n\nLegacy fragment color output (OpenGL core shaders prefer user-defined `out vec4 fragColor`)."),
    ("gl_FragDepth", "float", "frag", "### `gl_FragDepth`\n*out float gl_FragDepth*\n\nFragment depth value written to depth buffer; overrides interpolated depth."),
    ("gl_FrontFacing", "bool", "frag", "### `gl_FrontFacing`\n*in bool gl_FrontFacing*\n\nTrue if the current fragment belongs to a front-facing primitive."),
    ("gl_PointCoord", "vec2", "frag", "### `gl_PointCoord`\n*in vec2 gl_PointCoord*\n\nTwo-dimensional coordinates `[0, 1]` within a point primitive."),
    ("gl_SampleID", "int", "frag", "### `gl_SampleID`\n*in int gl_SampleID*\n\nSample number of the current fragment during per-sample shading."),
    ("gl_SamplePosition", "vec2", "frag", "### `gl_SamplePosition`\n*in vec2 gl_SamplePosition*\n\nSub-pixel offset `[0, 1]` of the sample currently being evaluated."),
    ("gl_SampleMaskIn", "int[]", "frag", "### `gl_SampleMaskIn`\n*in int gl_SampleMaskIn[]*\n\nBitmask of samples covered by the primitive generating the fragment."),
    ("gl_SampleMask", "int[]", "frag", "### `gl_SampleMask`\n*out int gl_SampleMask[]*\n\nOutput bitmask specifying which samples of the fragment should be written."),
    ("gl_PrimitiveID", "int", "frag", "### `gl_PrimitiveID`\n*in int gl_PrimitiveID*\n\nID of the primitive generated by earlier pipeline stages."),
    ("gl_Layer", "int", "frag", "### `gl_Layer`\n*out/in int gl_Layer*\n\nLayer index for layered rendering / cube map faces."),
    ("gl_ViewportIndex", "int", "frag", "### `gl_ViewportIndex`\n*out/in int gl_ViewportIndex*\n\nViewport index to which the primitive was directed."),
    ("gl_NumWorkGroups", "uvec3", "comp", "### `gl_NumWorkGroups`\n*in uvec3 gl_NumWorkGroups*\n\nTotal number of work groups dispatched in each dimension."),
    ("gl_WorkGroupSize", "uvec3", "comp", "### `gl_WorkGroupSize`\n*in uvec3 gl_WorkGroupSize*\n\nDimensions of a local work group defined by `layout(local_size_x = ...)`."),
    ("gl_WorkGroupID", "uvec3", "comp", "### `gl_WorkGroupID`\n*in uvec3 gl_WorkGroupID*\n\nThree-dimensional index of the current work group being executed."),
    ("gl_LocalInvocationID", "uvec3", "comp", "### `gl_LocalInvocationID`\n*in uvec3 gl_LocalInvocationID*\n\nThree-dimensional index of the invocation within the local work group."),
    ("gl_GlobalInvocationID", "uvec3", "comp", "### `gl_GlobalInvocationID`\n*in uvec3 gl_GlobalInvocationID*\n\nUnique global 3D index: `gl_WorkGroupID * gl_WorkGroupSize + gl_LocalInvocationID`."),
    ("gl_LocalInvocationIndex", "uint", "comp", "### `gl_LocalInvocationIndex`\n*in uint gl_LocalInvocationIndex*\n\n1D flattened index of the current invocation within the local work group."),
];

/// The preprocessor directives: name, detail, description.
pub const BUILTIN_DIRECTIVES: [(&'static str, &'static str, &'static str); 14] = [
    ("#version", "#version 460 core", "### `#version`\n*GLSL Preprocessor*\n\nSpecifies GLSL shading language version (e.g. `#version 460 core`)."),
    ("#include", "#include \"header.glsl\"", "### `#include`\n*GLSL Preprocessor / GL_GOOGLE_include_directive*\n\nIncludes an external GLSL header file."),
    ("#define", "#define NAME VALUE", "### `#define`\n*GLSL Preprocessor*\n\nDefines a preprocessor macro or constant."),
    ("#undef", "#undef NAME", "### `#undef`\n*GLSL Preprocessor*\n\nUndefines a previously defined preprocessor macro."),
    ("#if", "#if EXPRESSION", "### `#if`\n*GLSL Preprocessor*\n\nConditional preprocessor compilation."),
    ("#ifdef", "#ifdef NAME", "### `#ifdef`\n*GLSL Preprocessor*\n\nCompiles block if macro NAME is defined."),
    ("#ifndef", "#ifndef NAME", "### `#ifndef`\n*GLSL Preprocessor*\n\nCompiles block if macro NAME is not defined."),
    ("#elif", "#elif EXPRESSION", "### `#elif`\n*GLSL Preprocessor*\n\nElse-if conditional preprocessor branch."),
    ("#else", "#else", "### `#else`\n*GLSL Preprocessor*\n\nElse conditional preprocessor branch."),
    ("#endif", "#endif", "### `#endif`\n*GLSL Preprocessor*\n\nCloses conditional preprocessor block."),
    ("#extension", "#extension EXT : enable", "### `#extension`\n*GLSL Preprocessor*\n\nEnables, disables, or requires a GLSL extension."),
    ("#pragma", "#pragma ...", "### `#pragma`\n*GLSL Preprocessor*\n\nCompiler directive or target configuration."),
    ("#line", "#line NUMBER", "### `#line`\n*GLSL Preprocessor*\n\nSets line number for compiler diagnostic reporting."),
    ("#error", "#error MESSAGE", "### `#error`\n*GLSL Preprocessor*\n\nEmits a compiler error with the specified message."),
];

/// One overload of a built-in function.
pub struct BuiltinOverload {
    pub label: &'static str,
    pub params: Vec<String>,
}

/// A built-in function with its documentation and overloads.
pub struct BuiltinFunction {
    pub name: &'static str,
    pub description: &'static str,
    pub overloads: Vec<BuiltinOverload>,
}

/// A built-in type.
pub struct BuiltinType {
    pub name: &'static str,
    pub detail: &'static str,
    pub description: &'static str,
    pub has_constructor: bool,
}

/// A keyword or qualifier.
pub struct BuiltinKeyword {
    pub name: &'static str,
    pub detail: &'static str,
    pub description: &'static str,
}

/// A built-in variable.
pub struct BuiltinVariable {
    pub name: &'static str,
    pub var_type: &'static str,
    pub stage: &'static str,
    pub description: &'static str,
}

/// A preprocessor directive.
pub struct BuiltinDirective {
    pub name: &'static str,
    pub detail: &'static str,
    pub description: &'static str,
}

/// Mathematical value of a [`BuiltinOverload`].
pub struct OverloadView {
    pub label: Seq<char>,
    pub params: Seq<Seq<char>>,
}

/// Mathematical value of a [`BuiltinFunction`].
pub struct FunctionDocView {
    pub name: Seq<char>,
    pub description: Seq<char>,
    pub overloads: Seq<OverloadView>,
}

impl View for BuiltinOverload {
    type V = OverloadView;

    open spec fn view(&self) -> OverloadView {
        OverloadView { label: self.label@, params: crate::symbols::strings_view(self.params@) }
    }
}

impl View for BuiltinFunction {
    type V = FunctionDocView;

    open spec fn view(&self) -> FunctionDocView {
        FunctionDocView {
            name: self.name@,
            description: self.description@,
            overloads: self.overloads@.map_values(|o: BuiltinOverload| o@),
        }
    }
}

/// The parameters written as one string, separated by `|`.
pub open spec fn param_split(s: Seq<char>) -> Seq<Seq<char>> {
    if s.len() == 0 {
        seq![]
    } else {
        split_char(s, '|')
    }
}

/// The overload stored at index `k`.
pub open spec fn overload_at(k: int) -> OverloadView {
    OverloadView { label: OVERLOADS@[k].0@, params: param_split(OVERLOADS@[k].1@) }
}

/// The end of the overload range of function `i` (never past the table).
pub open spec fn overload_end(i: int) -> int {
    if BUILTIN_FUNCTIONS@[i].3 < 367 {
        BUILTIN_FUNCTIONS@[i].3 as int
    } else {
        367
    }
}

/// The number of overloads of function `i`.
pub open spec fn overload_count(i: int) -> nat {
    if overload_end(i) > BUILTIN_FUNCTIONS@[i].2 {
        (overload_end(i) - BUILTIN_FUNCTIONS@[i].2) as nat
    } else {
        0
    }
}

/// The built-in function stored at index `i`.
pub open spec fn builtin_at(i: int) -> FunctionDocView {
    FunctionDocView {
        name: BUILTIN_FUNCTIONS@[i].0@,
        description: BUILTIN_FUNCTIONS@[i].1@,
        overloads: Seq::new(overload_count(i), |j: int| overload_at(BUILTIN_FUNCTIONS@[i].2 + j)),
    }
}

/// Index of the first built-in function (from `i` on) named `name`.
pub open spec fn builtin_index(name: Seq<char>, i: int) -> Option<int>
    decreases 71 - i,
{
    if i < 0 || i >= 71 {
        None
    } else if BUILTIN_FUNCTIONS@[i].0@ == name {
        Some(i)
    } else {
        builtin_index(name, i + 1)
    }
}

fn overload_of(k: usize) -> (r: BuiltinOverload)
    requires
        k < 367,
    ensures
        r@ == overload_at(k as int),
{
    let e = OVERLOADS[k];
    let p = chars_of(e.1);
    let params = if p.len() == 0 {
        let v: Vec<String> = Vec::new();
        assert(crate::symbols::strings_view(v@) =~= Seq::<Seq<char>>::empty());
        v
    } else {
        let parts = split_char_of(&p, '|');
        crate::symbols::strings_of(&parts)
    };
    BuiltinOverload { label: e.0, params }
}

fn builtin_of(i: usize) -> (r: BuiltinFunction)
    requires
        i < 71,
    ensures
        r@ == builtin_at(i as int),
{
    let e = BUILTIN_FUNCTIONS[i];
    let end = if e.3 < 367 { e.3 } else { 367 };
    let mut overloads: Vec<BuiltinOverload> = Vec::new();
    let mut k = e.2;
    assert(overloads@.map_values(|o: BuiltinOverload| o@) =~= Seq::<OverloadView>::empty());
    while k < end
        invariant
            i < 71,
            e == BUILTIN_FUNCTIONS@[i as int],
            end == overload_end(i as int),
            e.2 <= k <= end || (k == e.2 && end <= e.2),
            end <= 367,
            overloads@.map_values(|o: BuiltinOverload| o@) =~= Seq::new(
                (k - e.2) as nat,
                |j: int| overload_at(e.2 + j),
            ),
        decreases end - k,
    {
        let o = overload_of(k);
        let ghost before = overloads@.map_values(|o: BuiltinOverload| o@);
        overloads.push(o);
        assert(overloads@.map_values(|o: BuiltinOverload| o@) =~= before.push(overload_at(k as int)));
        assert(Seq::new((k + 1 - e.2) as nat, |j: int| overload_at(e.2 + j)) =~= Seq::new(
            (k - e.2) as nat,
            |j: int| overload_at(e.2 + j),
        ).push(overload_at(k as int)));
        k = k + 1;
    }
    let r = BuiltinFunction { name: e.0, description: e.1, overloads };
    assert(r@.overloads =~= builtin_at(i as int).overloads);
    r
}

/// The built-in function named `name`, with its overloads.
pub fn lookup_builtin_function(name: &str) -> (r: Option<BuiltinFunction>)
    ensures
        match builtin_index(name@, 0) {
            Some(i) => r matches Some(f) && f@ == builtin_at(i),
            None => r is None,
        },
{
    let n = chars_of(name);
    let mut i: usize = 0;
    while i < 71
        invariant
            i <= 71,
            n@ == name@,
            builtin_index(name@, 0) == builtin_index(name@, i as int),
        decreases 71 - i,
    {
        let c = chars_of(BUILTIN_FUNCTIONS[i].0);
        if eq(&c, &n) {
            return Some(builtin_of(i));
        }
        i = i + 1;
    }
    None
}

/// All built-in functions, in table order.
pub fn get_all_builtins() -> (r: Vec<BuiltinFunction>)
    ensures
        r@.len() == 71,
        forall|i: int| 0 <= i < 71 ==> (#[trigger] r@[i])@ == builtin_at(i),
{
    let mut r: Vec<BuiltinFunction> = Vec::new();
    let mut i: usize = 0;
    while i < 71
        invariant
            i <= 71,
            r@.len() == i,
            forall|j: int| 0 <= j < i ==> (#[trigger] r@[j])@ == builtin_at(j),
        decreases 71 - i,
    {
        r.push(builtin_of(i));
        i = i + 1;
    }
    r
}

/// The built-in type stored as `e`.
pub open spec fn type_of(e: (&'static str, &'static str, &'static str, bool)) -> BuiltinType {
    BuiltinType { name: e.0, detail: e.1, description: e.2, has_constructor: e.3 }
}

/// All built-in types, in table order.
pub fn get_all_types() -> (r: Vec<BuiltinType>)
    ensures
        r@ == BUILTIN_TYPES@.map_values(|e: (&'static str, &'static str, &'static str, bool)| type_of(e)),
{
    let mut r: Vec<BuiltinType> = Vec::new();
    let mut i: usize = 0;
    while i < 88
        invariant
            i <= 88,
            r@ == BUILTIN_TYPES@.take(i as int).map_values(|e: (&'static str, &'static str, &'static str, bool)| type_of(e)),
        decreases 88 - i,
    {
        let e = BUILTIN_TYPES[i];
        r.push(BuiltinType { name: e.0, detail: e.1, description: e.2, has_constructor: e.3 });
        assert(BUILTIN_TYPES@.take(i + 1).map_values(|e: (&'static str, &'static str, &'static str, bool)| type_of(e))
            =~= BUILTIN_TYPES@.take(i as int).map_values(|e: (&'static str, &'static str, &'static str, bool)| type_of(e)).push(
            type_of(e),
        ));
        i = i + 1;
    }
    assert(BUILTIN_TYPES@.take(88) =~= BUILTIN_TYPES@);
    r
}

/// The keyword stored as `e`.
pub open spec fn keyword_of(e: (&'static str, &'static str, &'static str)) -> BuiltinKeyword {
    BuiltinKeyword { name: e.0, detail: e.1, description: e.2 }
}

/// All keywords and qualifiers, in table order.
pub fn get_all_keywords() -> (r: Vec<BuiltinKeyword>)
    ensures
        r@ == BUILTIN_KEYWORDS@.map_values(|e: (&'static str, &'static str, &'static str)| keyword_of(e)),
{
    let mut r: Vec<BuiltinKeyword> = Vec::new();
    let mut i: usize = 0;
    while i < 45
        invariant
            i <= 45,
            r@ == BUILTIN_KEYWORDS@.take(i as int).map_values(|e: (&'static str, &'static str, &'static str)| keyword_of(e)),
        decreases 45 - i,
    {
        let e = BUILTIN_KEYWORDS[i];
        r.push(BuiltinKeyword { name: e.0, detail: e.1, description: e.2 });
        assert(BUILTIN_KEYWORDS@.take(i + 1).map_values(|e: (&'static str, &'static str, &'static str)| keyword_of(e))
            =~= BUILTIN_KEYWORDS@.take(i as int).map_values(|e: (&'static str, &'static str, &'static str)| keyword_of(e)).push(
            keyword_of(e),
        ));
        i = i + 1;
    }
    assert(BUILTIN_KEYWORDS@.take(45) =~= BUILTIN_KEYWORDS@);
    r
}

/// The built-in variable stored as `e`.
pub open spec fn variable_of(e: (&'static str, &'static str, &'static str, &'static str)) -> BuiltinVariable {
    BuiltinVariable { name: e.0, var_type: e.1, stage: e.2, description: e.3 }
}

/// All built-in variables, in table order.
pub fn get_all_variables() -> (r: Vec<BuiltinVariable>)
    ensures
        r@ == BUILTIN_VARIABLES@.map_values(|e: (&'static str, &'static str, &'static str, &'static str)| variable_of(e)),
{
    let mut r: Vec<BuiltinVariable> = Vec::new();
    let mut i: usize = 0;
    while i < 26
        invariant
            i <= 26,
            r@ == BUILTIN_VARIABLES@.take(i as int).map_values(
                |e: (&'static str, &'static str, &'static str, &'static str)| variable_of(e),
            ),
        decreases 26 - i,
    {
        let e = BUILTIN_VARIABLES[i];
        r.push(BuiltinVariable { name: e.0, var_type: e.1, stage: e.2, description: e.3 });
        assert(BUILTIN_VARIABLES@.take(i + 1).map_values(|e: (&'static str, &'static str, &'static str, &'static str)| variable_of(e))
            =~= BUILTIN_VARIABLES@.take(i as int).map_values(
            |e: (&'static str, &'static str, &'static str, &'static str)| variable_of(e),
        ).push(variable_of(e)));
        i = i + 1;
    }
    assert(BUILTIN_VARIABLES@.take(26) =~= BUILTIN_VARIABLES@);
    r
}

/// The directive stored as `e`.
pub open spec fn directive_of(e: (&'static str, &'static str, &'static str)) -> BuiltinDirective {
    BuiltinDirective { name: e.0, detail: e.1, description: e.2 }
}

/// All preprocessor directives, in table order.
pub fn get_all_directives() -> (r: Vec<BuiltinDirective>)
    ensures
        r@ == BUILTIN_DIRECTIVES@.map_values(|e: (&'static str, &'static str, &'static str)| directive_of(e)),
{
    let mut r: Vec<BuiltinDirective> = Vec::new();
    let mut i: usize = 0;
    while i < 14
        invariant
            i <= 14,
            r@ == BUILTIN_DIRECTIVES@.take(i as int).map_values(|e: (&'static str, &'static str, &'static str)| directive_of(e)),
        decreases 14 - i,
    {
        let e = BUILTIN_DIRECTIVES[i];
        r.push(BuiltinDirective { name: e.0, detail: e.1, description: e.2 });
        assert(BUILTIN_DIRECTIVES@.take(i + 1).map_values(|e: (&'static str, &'static str, &'static str)| directive_of(e))
            =~= BUILTIN_DIRECTIVES@.take(i as int).map_values(|e: (&'static str, &'static str, &'static str)| directive_of(e)).push(
            directive_of(e),
        ));
        i = i + 1;
    }
    assert(BUILTIN_DIRECTIVES@.take(14) =~= BUILTIN_DIRECTIVES@);
    r
}

} // verus!
